//! The client's side of a crates-style registry: the request for a crate and
//! what the reply says of it.

use vstd::prelude::*;
use crate::json::{
    at_pointer, json_document, json_flag, json_items, json_member, json_member2, json_member_text,
    json_text, member, member_text, parse_json, plain_key, pointer_of,
};
use crate::registry::{no_version, PackageInfo, PackageRecord, RegistryError, Request};
use crate::scan::{trim_end_char, trim_end_matches};
use crate::text::{glue3, string_views};

verus! {

/// The client's side of a crates-style registry: where it is.
#[derive(Debug)]
pub struct CratesIoClient {
    pub registry_url: String,
}

/// One entry of the list of versions in a crates-style reply: the version
/// number, if it is a string, and whether the version was yanked, if said.
#[derive(Debug)]
pub struct CrateVersion {
    pub num: Option<String>,
    pub yanked: Option<bool>,
}

/// The mathematical value of a [`CrateVersion`].
pub struct CrateVersionRecord {
    pub num: Option<Seq<char>>,
    pub yanked: Option<bool>,
}

impl View for CrateVersion {
    type V = CrateVersionRecord;

    open spec fn view(&self) -> CrateVersionRecord {
        CrateVersionRecord {
            num: match self.num {
                Some(n) => Some(n@),
                None => None,
            },
            yanked: self.yanked,
        }
    }
}

/// The views of a sequence of entries.
pub open spec fn entry_views(entries: Seq<CrateVersion>) -> Seq<CrateVersionRecord> {
    Seq::new(entries.len(), |i: int| entries[i]@)
}

/// The versions that count among the entries, in order: those not yanked
/// that have a number.
pub open spec fn published(entries: Seq<CrateVersionRecord>) -> Seq<Seq<char>>
    decreases entries.len(),
{
    if entries.len() == 0 {
        Seq::<Seq<char>>::empty()
    } else {
        let before = published(entries.drop_last());
        let entry = entries.last();
        if entry.yanked == Some(true) {
            before
        } else {
            match entry.num {
                Some(n) => before.push(n),
                None => before,
            }
        }
    }
}

/// The entry that an element of the `versions` array of a reply stands for.
pub open spec fn entry_of(item: serde_json::Value) -> CrateVersionRecord {
    CrateVersionRecord {
        num: json_member_text(item, "num"@),
        yanked: match json_member(item, "yanked"@) {
            Some(y) => json_flag(y),
            None => None,
        },
    }
}

/// The latest version that the body of a crates-style reply names: the
/// member `max_version` of its member `crate` where that is a string, or
/// `0.0.0`.
pub open spec fn crates_latest(body: serde_json::Value) -> Seq<char> {
    match json_member2(body, "crate"@, "max_version"@) {
        Some(v) => match json_text(v) {
            Some(text) => text,
            None => no_version(),
        },
        None => no_version(),
    }
}

/// The versions that the body of a crates-style reply lists: those of the
/// elements of its `versions` array that count, or nothing where it has no
/// such array.
pub open spec fn crates_versions(body: serde_json::Value) -> Seq<Seq<char>> {
    match json_member(body, "versions"@) {
        Some(v) => match json_items(v) {
            Some(items) => published(Seq::new(items.len(), |i: int| entry_of(items[i]))),
            None => Seq::<Seq<char>>::empty(),
        },
        None => Seq::<Seq<char>>::empty(),
    }
}

/// What the body of a crates-style reply says of a crate.
pub open spec fn crates_answer(body: serde_json::Value) -> PackageRecord {
    PackageRecord::Found { versions: crates_versions(body), latest: crates_latest(body) }
}

/// The versions that count among the entries: those not yanked that have a
/// number.
pub fn published_versions(entries: &Vec<CrateVersion>) -> (versions: Vec<String>)
    ensures
        string_views(versions@) == published(entry_views(entries@)),
{
    let ghost all = entry_views(entries@);
    let mut versions: Vec<String> = Vec::new();
    let mut i: usize = 0;
    assert(all.take(0) == Seq::<CrateVersionRecord>::empty());
    assert(string_views(versions@) == Seq::<Seq<char>>::empty());
    while i < entries.len()
        invariant
            i <= entries.len(),
            all == entry_views(entries@),
            string_views(versions@) == published(all.take(i as int)),
        decreases entries.len() - i,
    {
        proof {
            let here = all.take(i + 1);
            assert(here.drop_last() == all.take(i as int));
            assert(here.last() == entries@[i as int]@);
        }
        let entry = &entries[i];
        let yanked = match entry.yanked {
            Some(y) => y,
            None => false,
        };
        if !yanked {
            match &entry.num {
                Some(n) => {
                    let ghost before = string_views(versions@);
                    versions.push(n.clone());
                    assert(string_views(versions@) == before.push(n@));
                },
                None => {},
            }
        }
        i += 1;
    }
    assert(all.take(i as int) == all);
    versions
}

/// The entry that an element of the `versions` array stands for.
fn read_entry(item: &serde_json::Value) -> (entry: CrateVersion)
    ensures
        entry@ == entry_of(*item),
{
    let yanked = match member(item, "yanked") {
        Some(y) => y.as_bool(),
        None => None,
    };
    CrateVersion { num: member_text(item, "num"), yanked }
}

/// The pointer `/crate/max_version` names the member `max_version` of the
/// member `crate`, and both keys are plain.
proof fn lemma_max_version_pointer()
    ensures
        "/crate/max_version"@ == pointer_of("crate"@, "max_version"@),
        plain_key("crate"@),
        plain_key("max_version"@),
{
    reveal_strlit("/crate/max_version");
    reveal_strlit("crate");
    reveal_strlit("max_version");
    let first = "crate"@;
    let second = "max_version"@;
    assert(first.len() == 5 && second.len() == 11);
    assert("/crate/max_version"@ =~= pointer_of(first, second));
    assert(first[0] == 'c' && second[0] == 'm');
}

/// The package that the body of a crates-style reply describes.
pub fn crates_package_from(body: &serde_json::Value) -> (info: PackageInfo)
    ensures
        info@ == crates_answer(*body),
{
    proof {
        lemma_max_version_pointer();
    }
    let latest = match at_pointer(body, "/crate/max_version") {
        Some(v) => match v.as_str() {
            Some(text) => text.to_owned(),
            None => "0.0.0".to_owned(),
        },
        None => "0.0.0".to_owned(),
    };
    let items = match member(body, "versions") {
        Some(v) => v.as_array(),
        None => None,
    };
    let versions = match items {
        Some(items) => {
            let mut entries: Vec<CrateVersion> = Vec::new();
            let mut i: usize = 0;
            while i < items.len()
                invariant
                    i <= items.len(),
                    entries@.len() == i,
                    forall|k: int| 0 <= k < i ==> (#[trigger] entries@[k])@ == entry_of(items@[k]),
                decreases items.len() - i,
            {
                entries.push(read_entry(&items[i]));
                i += 1;
            }
            assert(entry_views(entries@) == Seq::new(
                items@.len(),
                |k: int| entry_of(items@[k]),
            ));
            published_versions(&entries)
        },
        None => {
            let versions: Vec<String> = Vec::new();
            assert(string_views(versions@) == Seq::<Seq<char>>::empty());
            versions
        },
    };
    PackageInfo::Found { versions, latest }
}

impl CratesIoClient {
    /// The address of the registry: the one given, or `https://crates.io`,
    /// without slashes at its end.
    pub open spec fn base_url(registry_url: Option<Seq<char>>) -> Seq<char> {
        trim_end_char(
            match registry_url {
                Some(url) => url,
                None => "https://crates.io"@,
            },
            '/',
        )
    }

    /// A client for the registry at `registry_url`, or for crates.io.
    pub fn new(registry_url: Option<&str>) -> (client: Self)
        ensures
            client.registry_url@ == Self::base_url(
                match registry_url {
                    Some(url) => Some(url@),
                    None => None,
                },
            ),
    {
        let url = match registry_url {
            Some(url) => url,
            None => "https://crates.io",
        };
        CratesIoClient { registry_url: trim_end_matches(url, '/').to_owned() }
    }

    /// The request that asks this registry for a crate. The registry wants to
    /// know who asks.
    pub fn request(&self, crate_name: &str) -> (request: Request)
        ensures
            request.url@ == self.registry_url@ + "/api/v1/crates/"@ + crate_name@,
            request.accept is None,
            request.authorization is None,
            request.user_agent matches Some(agent) && agent@
                == "oneup (https://github.com/circlesac/oneup)"@,
    {
        Request {
            url: glue3(self.registry_url.as_str(), "/api/v1/crates/", crate_name),
            accept: None,
            authorization: None,
            user_agent: Some("oneup (https://github.com/circlesac/oneup)".to_owned()),
        }
    }

    /// What this registry's reply says of the crate asked for. Status 404
    /// means that the crate is unknown, which is an answer and no error.
    pub fn read_reply(&self, status: u16, body: &str) -> (r: Result<PackageInfo, RegistryError>)
        ensures
            if status == 404 {
                r matches Ok(info) && info@ == PackageRecord::NotFound
            } else if !(200 <= status < 300) {
                r matches Err(e) && e == (RegistryError::Status { code: status })
            } else {
                match json_document(body@) {
                    Some(document) => r matches Ok(info) && info@ == crates_answer(document),
                    None => r matches Err(e) && e == RegistryError::Body,
                }
            },
    {
        if status == 404 {
            Ok(PackageInfo::NotFound)
        } else if !(200 <= status && status < 300) {
            Err(RegistryError::Status { code: status })
        } else {
            match parse_json(body) {
                Ok(document) => Ok(crates_package_from(&document)),
                Err(_) => Err(RegistryError::Body),
            }
        }
    }
}

} // verus!
