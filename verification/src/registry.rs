//! What a package registry knows of a package.

use vstd::prelude::*;
use crate::json::{
    at_pointer, json_document, json_member, json_member2, json_members, json_text, lists_keys,
    member, object_keys, parse_json, plain_key, pointer_of,
};
use crate::npmrc::{normalized_url, registry_for, token_for, NpmrcConfig};
use crate::scan::{find_char, index_of, trim_end_matches};
use crate::text::{glue, glue3, string_views, to_chars};

verus! {

/// The answer of a registry to the question for a package.
#[derive(Debug)]
pub enum PackageInfo {
    /// The package exists: every published version, in no particular order,
    /// and the one that the registry calls the latest.
    Found { versions: Vec<String>, latest: String },
    /// The registry does not know the package.
    NotFound,
}

/// The mathematical value of a [`PackageInfo`].
pub enum PackageRecord {
    Found { versions: Seq<Seq<char>>, latest: Seq<char> },
    NotFound,
}

impl View for PackageInfo {
    type V = PackageRecord;

    open spec fn view(&self) -> PackageRecord {
        match self {
            PackageInfo::Found { versions, latest } => PackageRecord::Found {
                versions: string_views(versions@),
                latest: latest@,
            },
            PackageInfo::NotFound => PackageRecord::NotFound,
        }
    }
}

/// A request to put to a registry: the address, and the headers to send.
#[derive(Debug)]
pub struct Request {
    pub url: String,
    pub accept: Option<String>,
    pub authorization: Option<String>,
    pub user_agent: Option<String>,
}

/// Why a registry's reply gives no answer.
#[derive(Debug, Clone, Copy, PartialEq, Eq, Structural)]
pub enum RegistryError {
    /// The registry refused the credentials: status 401.
    Unauthorized,
    /// The registry answered with a status that is neither success nor 404.
    Status { code: u16 },
    /// The body of the reply is not JSON.
    Body,
}

/// What the status of a reply means for the question asked.
#[derive(Debug, Clone, Copy, PartialEq, Eq, Structural)]
pub enum Reply {
    /// 404: the registry does not know the package.
    NotFound,
    /// 401: the registry refused the credentials.
    Unauthorized,
    /// Any other status outside 200 to 299.
    Failed,
    /// 200 to 299: the body holds the answer.
    Success,
}

/// The client's side of an npm-style registry: where it is and how to
/// authenticate.
#[derive(Debug)]
pub struct RegistryClient {
    pub registry_url: String,
    pub auth_token: Option<String>,
}

/// The version that a registry is taken to call the latest when it names none.
pub open spec fn no_version() -> Seq<char> {
    "0.0.0"@
}

/// A package name as it stands in an address: in a scoped name, one that
/// starts with `@`, the first `/` becomes `%2f`.
pub open spec fn encoded_name(name: Seq<char>) -> Seq<char> {
    let i = index_of(name, '/');
    if name.len() > 0 && name[0] == '@' && i < name.len() {
        name.take(i) + "%2f"@ + name.skip(i + 1)
    } else {
        name
    }
}

/// What a status means to an npm-style registry's client.
pub open spec fn reply_kind(status: u16) -> Reply {
    if status == 404 {
        Reply::NotFound
    } else if status == 401 {
        Reply::Unauthorized
    } else if 200 <= status < 300 {
        Reply::Success
    } else {
        Reply::Failed
    }
}

/// The latest version that the body of an npm-style reply names: the member
/// `latest` of its member `dist-tags` where that is a string, or `0.0.0`.
pub open spec fn npm_latest(body: serde_json::Value) -> Seq<char> {
    match json_member2(body, "dist-tags"@, "latest"@) {
        Some(v) => match json_text(v) {
            Some(text) => text,
            None => no_version(),
        },
        None => no_version(),
    }
}

/// Whether `versions` are the versions that the body of an npm-style reply
/// lists: the keys of its `versions` object, each once and in any order, or
/// nothing where it has no such object.
pub open spec fn npm_versions(body: serde_json::Value, versions: Seq<Seq<char>>) -> bool {
    match json_member(body, "versions"@) {
        Some(v) => match json_members(v) {
            Some(members) => lists_keys(versions, members),
            None => versions.len() == 0,
        },
        None => versions.len() == 0,
    }
}

/// Whether `info` is what the body of an npm-style reply says of a package.
pub open spec fn npm_answer(body: serde_json::Value, info: PackageRecord) -> bool {
    info matches PackageRecord::Found { versions, latest } && latest == npm_latest(body)
        && npm_versions(body, versions)
}

/// Encodes a package name for an address: `@scope/name` becomes
/// `@scope%2fname`, any other name stays.
pub fn encode_package_name(name: &str) -> (r: String)
    ensures
        r@ == encoded_name(name@),
{
    let x = to_chars(name);
    if x.len() > 0 && x[0] == '@' {
        let i = find_char(name, '/');
        if i < x.len() {
            return glue3(name.substring_char(0, i), "%2f", name.substring_char(i + 1, x.len()));
        }
    }
    name.to_owned()
}

/// What a status means to an npm-style registry's client.
pub fn classify_status(status: u16) -> (r: Reply)
    ensures
        r == reply_kind(status),
{
    if status == 404 {
        Reply::NotFound
    } else if status == 401 {
        Reply::Unauthorized
    } else if 200 <= status && status < 300 {
        Reply::Success
    } else {
        Reply::Failed
    }
}

/// The package that an npm-style reply describes, from the latest version it
/// names and the versions it lists, either of which may be missing.
pub fn npm_package(latest: Option<String>, versions: Option<Vec<String>>) -> (info: PackageInfo)
    ensures
        info@ == (PackageRecord::Found {
            versions: match versions {
                Some(v) => string_views(v@),
                None => Seq::<Seq<char>>::empty(),
            },
            latest: match latest {
                Some(l) => l@,
                None => no_version(),
            },
        }),
{
    let latest = match latest {
        Some(l) => l,
        None => "0.0.0".to_owned(),
    };
    let versions = match versions {
        Some(v) => v,
        None => Vec::new(),
    };
    assert(string_views(Seq::<String>::empty()) == Seq::<Seq<char>>::empty());
    PackageInfo::Found { versions, latest }
}

/// The pointer `/dist-tags/latest` names the member `latest` of the member
/// `dist-tags`, and both keys are plain.
proof fn lemma_latest_pointer()
    ensures
        "/dist-tags/latest"@ == pointer_of("dist-tags"@, "latest"@),
        plain_key("dist-tags"@),
        plain_key("latest"@),
{
    reveal_strlit("/dist-tags/latest");
    reveal_strlit("dist-tags");
    reveal_strlit("latest");
    let first = "dist-tags"@;
    let second = "latest"@;
    assert(first.len() == 9 && second.len() == 6);
    assert("/dist-tags/latest"@ =~= pointer_of(first, second));
    assert(first[0] == 'd' && second[0] == 'l');
}

/// The package that the body of an npm-style reply describes.
pub fn npm_package_from(body: &serde_json::Value) -> (info: PackageInfo)
    ensures
        npm_answer(*body, info@),
{
    proof {
        lemma_latest_pointer();
    }
    let latest = match at_pointer(body, "/dist-tags/latest") {
        Some(v) => match v.as_str() {
            Some(text) => Some(text.to_owned()),
            None => None,
        },
        None => None,
    };
    let versions = match member(body, "versions") {
        Some(v) => object_keys(v),
        None => None,
    };
    npm_package(latest, versions)
}

impl RegistryClient {
    /// A client for the registry at `registry_url`.
    pub fn new(registry_url: &str, auth_token: Option<String>) -> (client: Self)
        ensures
            client.registry_url@ == registry_url@,
            client.auth_token == auth_token,
    {
        RegistryClient { registry_url: registry_url.to_owned(), auth_token }
    }

    /// The address at which this registry describes a package.
    pub open spec fn package_url(&self, package_name: Seq<char>) -> Seq<char> {
        self.registry_url@ + "/"@ + encoded_name(package_name)
    }

    /// The request that asks this registry for a package: JSON is asked for,
    /// and the token, if there is one, is sent as a bearer token.
    pub fn request(&self, package_name: &str) -> (request: Request)
        ensures
            request.url@ == self.package_url(package_name@),
            request.accept matches Some(a) && a@ == "application/json"@,
            match self.auth_token {
                Some(token) => request.authorization matches Some(a) && a@ == "Bearer "@ + token@,
                None => request.authorization is None,
            },
            request.user_agent is None,
    {
        let encoded = encode_package_name(package_name);
        let url = glue3(self.registry_url.as_str(), "/", encoded.as_str());
        let authorization = match &self.auth_token {
            Some(token) => Some(glue("Bearer ", token.as_str())),
            None => None,
        };
        Request { url, accept: Some("application/json".to_owned()), authorization, user_agent: None }
    }

    /// What this registry's reply says of the package asked for. Status 404
    /// means that the package is unknown, which is an answer and no error.
    pub fn read_reply(&self, status: u16, body: &str) -> (r: Result<PackageInfo, RegistryError>)
        ensures
            match reply_kind(status) {
                Reply::NotFound => r matches Ok(info) && info@ == PackageRecord::NotFound,
                Reply::Unauthorized => r matches Err(e) && e == RegistryError::Unauthorized,
                Reply::Failed => r matches Err(e) && e == (RegistryError::Status { code: status }),
                Reply::Success => match json_document(body@) {
                    Some(document) => r matches Ok(info) && npm_answer(document, info@),
                    None => r matches Err(e) && e == RegistryError::Body,
                },
            },
    {
        match classify_status(status) {
            Reply::NotFound => Ok(PackageInfo::NotFound),
            Reply::Unauthorized => Err(RegistryError::Unauthorized),
            Reply::Failed => Err(RegistryError::Status { code: status }),
            Reply::Success => match parse_json(body) {
                Ok(document) => Ok(npm_package_from(&document)),
                Err(_) => Err(RegistryError::Body),
            },
        }
    }
}

/// The scope of a package name: in a name that starts with `@`, what stands
/// before the first `/`.
pub open spec fn scope_of(name: Seq<char>) -> Option<Seq<char>> {
    if name.len() > 0 && name[0] == '@' {
        Some(name.take(index_of(name, '/')))
    } else {
        None
    }
}

/// The scope of a package name, if it has one.
pub fn package_scope<'a>(name: &'a str) -> (r: Option<&'a str>)
    ensures
        match r {
            Some(scope) => scope_of(name@) == Some(scope@),
            None => scope_of(name@) is None,
        },
{
    let x = to_chars(name);
    if x.len() > 0 && x[0] == '@' {
        let i = find_char(name, '/');
        proof {
            crate::scan::lemma_index_of(name@, '/');
        }
        Some(name.substring_char(0, i))
    } else {
        None
    }
}

impl RegistryClient {
    /// A client for a registry named on the command line: its address without
    /// slashes at its end, and no token.
    pub fn for_override(registry_url: &str) -> (client: Self)
        ensures
            client.registry_url@ == normalized_url(registry_url@),
            client.auth_token is None,
    {
        RegistryClient { registry_url: trim_end_matches(registry_url, '/').to_owned(), auth_token: None }
    }

    /// A client for the registry that the settings name for a package: the
    /// registry of the package's scope, and the token set for that registry.
    pub fn from_npmrc(package_name: &str, npmrc: &NpmrcConfig) -> (client: Self)
        ensures
            client.registry_url@ == registry_for(npmrc.settings(), scope_of(package_name@)),
            match client.auth_token {
                Some(token) => token_for(
                    npmrc.settings(),
                    npmrc.environment(),
                    client.registry_url@,
                ) == Some(token@),
                None => token_for(npmrc.settings(), npmrc.environment(), client.registry_url@)
                    is None,
            },
    {
        let registry_url = npmrc.registry_url(package_scope(package_name));
        let auth_token = npmrc.auth_token(registry_url.as_str());
        RegistryClient { registry_url, auth_token }
    }
}

} // verus!
