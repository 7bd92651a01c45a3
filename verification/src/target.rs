//! Manifests: the package name and version that a `package.json`-like or a
//! `Cargo.toml`-like text declares, and the same text with another version.

use vstd::prelude::*;
use crate::json::{
    copy_json, json_document, json_member_text, json_members, json_with_text, json_written,
    member_set, member_text, parse_json, set_member_text, write_pretty,
};
use crate::text::{same_text, text_of};
use crate::toml::{
    copy_toml, entry_set, entry_text, parse_toml, set_entry_text, toml_document, toml_entry_text,
    toml_item, toml_rendered, toml_root_item, toml_with_text, write_toml,
};

verus! {

/// A manifest's document in one of the two kinds.
enum Document {
    Json(serde_json::Value),
    Toml(toml_edit::DocumentMut),
}

/// The document behind a manifest, kept for writing it back. It can only be
/// had by reading a manifest, so a new version can always be written to it.
pub struct TargetFormat {
    document: Document,
}

/// One manifest: the package it names, its current version, and its document.
pub struct TargetFile {
    pub package_name: String,
    pub version: String,
    pub format: TargetFormat,
}

/// Why a text is no manifest, or could not be written out.
#[derive(Debug, Clone, Copy, PartialEq, Eq, Structural)]
pub enum TargetError {
    /// The text is not JSON.
    InvalidJson,
    /// The JSON document is no object.
    NotAnObject,
    /// The object has neither a string `package` nor a string `name`.
    MissingName,
    /// The text is not TOML.
    InvalidToml,
    /// The document has no string `package.name`.
    MissingPackageName,
    /// The document has no string `package.version`.
    MissingPackageVersion,
    /// The changed document could not be written out.
    Unwritable,
}

impl TargetFormat {
    /// A JSON document is an object; a TOML document has the entry that a
    /// new version is written to.
    #[verifier::type_invariant]
    spec fn writable(self) -> bool {
        match self.document {
            Document::Json(raw) => json_members(raw) is Some,
            Document::Toml(document) => toml_root_item(document, "package"@) matches Some(item)
                && toml_item(item, "version"@) is Some,
        }
    }

    /// The JSON document, if this is one.
    pub closed spec fn json(&self) -> Option<serde_json::Value> {
        match self.document {
            Document::Json(raw) => Some(raw),
            Document::Toml(_) => None,
        }
    }

    /// The TOML document, if this is one.
    pub closed spec fn toml(&self) -> Option<toml_edit::DocumentMut> {
        match self.document {
            Document::Json(_) => None,
            Document::Toml(document) => Some(document),
        }
    }

    /// A manifest's document is of exactly one kind: JSON or TOML.
    pub proof fn lemma_one_kind(&self)
        ensures
            self.json() is Some <==> self.toml() is None,
    {
    }
}

/// The version that a JSON manifest without one is taken to have.
pub open spec fn default_version() -> Seq<char> {
    "0.0.0"@
}

/// The name and version that the members of a JSON manifest give: the name
/// is `package` if that is a string, else `name`; the version is `version`,
/// or the default where that is no string.
pub open spec fn json_identity_spec(
    package: Option<Seq<char>>,
    name: Option<Seq<char>>,
    version: Option<Seq<char>>,
) -> Result<(Seq<char>, Seq<char>), TargetError> {
    let v = match version {
        Some(v) => v,
        None => default_version(),
    };
    match package {
        Some(p) => Ok((p, v)),
        None => match name {
            Some(n) => Ok((n, v)),
            None => Err(TargetError::MissingName),
        },
    }
}

/// The name and version that the entries of a TOML manifest give: both are
/// required.
pub open spec fn toml_identity_spec(name: Option<Seq<char>>, version: Option<Seq<char>>) -> Result<
    (Seq<char>, Seq<char>),
    TargetError,
> {
    match name {
        Some(n) => match version {
            Some(v) => Ok((n, v)),
            None => Err(TargetError::MissingPackageVersion),
        },
        None => Err(TargetError::MissingPackageName),
    }
}

/// What reading a JSON manifest gives: name, version and document.
pub open spec fn read_json_spec(content: Seq<char>) -> Result<
    (Seq<char>, Seq<char>, serde_json::Value),
    TargetError,
> {
    match json_document(content) {
        None => Err(TargetError::InvalidJson),
        Some(raw) => if json_members(raw) is None {
            Err(TargetError::NotAnObject)
        } else {
            match json_identity_spec(
                json_member_text(raw, "package"@),
                json_member_text(raw, "name"@),
                json_member_text(raw, "version"@),
            ) {
                Ok((name, version)) => Ok((name, version, raw)),
                Err(e) => Err(e),
            }
        },
    }
}

/// What reading a TOML manifest gives: name, version and document.
pub open spec fn read_toml_spec(content: Seq<char>) -> Result<
    (Seq<char>, Seq<char>, toml_edit::DocumentMut),
    TargetError,
> {
    match toml_document(content) {
        None => Err(TargetError::InvalidToml),
        Some(document) => match toml_identity_spec(
            toml_entry_text(document, "package"@, "name"@),
            toml_entry_text(document, "package"@, "version"@),
        ) {
            Ok((name, version)) => Ok((name, version, document)),
            Err(e) => Err(e),
        },
    }
}

/// The name and version of a JSON manifest, from its three members.
pub fn json_identity(package: Option<String>, name: Option<String>, version: Option<String>) -> (r:
    Result<(String, String), TargetError>)
    ensures
        match r {
            Ok((n, v)) => json_identity_spec(
                text_of(package),
                text_of(name),
                text_of(version),
            ) == Ok::<(Seq<char>, Seq<char>), TargetError>((n@, v@)),
            Err(e) => json_identity_spec(
                text_of(package),
                text_of(name),
                text_of(version),
            ) == Err::<(Seq<char>, Seq<char>), TargetError>(e),
        },
{
    let v = match version {
        Some(v) => v,
        None => "0.0.0".to_owned(),
    };
    match package {
        Some(p) => Ok((p, v)),
        None => match name {
            Some(n) => Ok((n, v)),
            None => Err(TargetError::MissingName),
        },
    }
}

/// The name and version of a TOML manifest, from its two entries.
pub fn toml_identity(name: Option<String>, version: Option<String>) -> (r: Result<
    (String, String),
    TargetError,
>)
    ensures
        match r {
            Ok((n, v)) => toml_identity_spec(text_of(name), text_of(version))
                == Ok::<(Seq<char>, Seq<char>), TargetError>((n@, v@)),
            Err(e) => toml_identity_spec(text_of(name), text_of(version))
                == Err::<(Seq<char>, Seq<char>), TargetError>(e),
        },
{
    match name {
        Some(n) => match version {
            Some(v) => Ok((n, v)),
            None => Err(TargetError::MissingPackageVersion),
        },
        None => Err(TargetError::MissingPackageName),
    }
}

impl TargetFile {
    /// The JSON document of the manifest, if it is a JSON manifest.
    pub open spec fn json(&self) -> Option<serde_json::Value> {
        self.format.json()
    }

    /// The TOML document of the manifest, if it is a TOML manifest.
    pub open spec fn toml(&self) -> Option<toml_edit::DocumentMut> {
        self.format.toml()
    }

    /// Reads a manifest from the text of a file: as TOML where the file's
    /// extension is `toml`, as JSON otherwise.
    pub fn read(extension: Option<&str>, content: &str) -> (r: Result<TargetFile, TargetError>)
        ensures
            extension matches Some(e) && e@ == "toml"@ ==> Self::reads_toml(content@, r),
            !(extension matches Some(e) && e@ == "toml"@) ==> Self::reads_json(content@, r),
    {
        let toml = match extension {
            Some(e) => same_text(e, "toml"),
            None => false,
        };
        if toml {
            Self::read_toml(content)
        } else {
            Self::read_json(content)
        }
    }

    /// Whether `r` is what reading `content` as a JSON manifest gives.
    pub open spec fn reads_json(content: Seq<char>, r: Result<TargetFile, TargetError>) -> bool {
        match r {
            Ok(target) => read_json_spec(content) == Ok::<
                (Seq<char>, Seq<char>, serde_json::Value),
                TargetError,
            >((target.package_name@, target.version@, target.json()->0)) && target.json() is Some
                && target.toml() is None,
            Err(e) => read_json_spec(content) == Err::<
                (Seq<char>, Seq<char>, serde_json::Value),
                TargetError,
            >(e),
        }
    }

    /// Whether `r` is what reading `content` as a TOML manifest gives.
    pub open spec fn reads_toml(content: Seq<char>, r: Result<TargetFile, TargetError>) -> bool {
        match r {
            Ok(target) => read_toml_spec(content) == Ok::<
                (Seq<char>, Seq<char>, toml_edit::DocumentMut),
                TargetError,
            >((target.package_name@, target.version@, target.toml()->0)) && target.toml() is Some
                && target.json() is None,
            Err(e) => read_toml_spec(content) == Err::<
                (Seq<char>, Seq<char>, toml_edit::DocumentMut),
                TargetError,
            >(e),
        }
    }

    /// Reads a JSON manifest: an object whose `package` member, or else whose
    /// `name` member, is the package name, and whose `version` member is the
    /// version, `0.0.0` if there is none.
    pub fn read_json(content: &str) -> (r: Result<TargetFile, TargetError>)
        ensures
            Self::reads_json(content@, r),
    {
        let raw = match parse_json(content) {
            Ok(raw) => raw,
            Err(_) => {
                return Err(TargetError::InvalidJson);
            },
        };
        if !raw.is_object() {
            return Err(TargetError::NotAnObject);
        }
        let package = member_text(&raw, "package");
        let name = member_text(&raw, "name");
        let version = member_text(&raw, "version");
        match json_identity(package, name, version) {
            Ok((package_name, version)) => Ok(
                TargetFile {
                    package_name,
                    version,
                    format: TargetFormat { document: Document::Json(raw) },
                },
            ),
            Err(e) => Err(e),
        }
    }

    /// Reads a TOML manifest: a document whose `package` table holds the
    /// package name under `name` and the version under `version`.
    pub fn read_toml(content: &str) -> (r: Result<TargetFile, TargetError>)
        ensures
            Self::reads_toml(content@, r),
    {
        let document = match parse_toml(content) {
            Ok(document) => document,
            Err(_) => {
                return Err(TargetError::InvalidToml);
            },
        };
        let name = entry_text(&document, "package", "name");
        let version = entry_text(&document, "package", "version");
        match toml_identity(name, version) {
            Ok((package_name, version)) => Ok(
                TargetFile {
                    package_name,
                    version,
                    format: TargetFormat { document: Document::Toml(document) },
                },
            ),
            Err(e) => Err(e),
        }
    }

    /// The text of this manifest with `new_version` in place of its version,
    /// or `None` where it cannot be written: for JSON the document with its
    /// `version` member set, written out with indentation and a final
    /// newline, unless the serializer refuses it; for TOML the document with
    /// `package.version` set, written out.
    pub open spec fn written(&self, new_version: Seq<char>) -> Option<Seq<char>> {
        match self.json() {
            Some(raw) => match json_written(json_with_text(raw, "version"@, new_version)) {
                Some(text) => Some(text + "\n"@),
                None => None,
            },
            None => Some(
                toml_rendered(toml_with_text(self.toml()->0, "package"@, "version"@, new_version)),
            ),
        }
    }

    /// Writes the manifest out with `new_version` in place of its version:
    /// the text that the file is to hold. It fails only for a JSON manifest
    /// that the serializer refuses. In the document written the version is
    /// the new one and everything else is as it was: in a JSON document every
    /// other member, in a TOML document every other entry of every table.
    pub fn write(&self, new_version: &str) -> (r: Result<String, TargetError>)
        ensures
            match r {
                Ok(text) => self.written(new_version@) == Some(text@),
                Err(e) => e == TargetError::Unwritable && self.json() is Some && json_written(
                    json_with_text(self.json()->0, "version"@, new_version@),
                ) is None,
            },
            self.json() matches Some(raw) ==> member_set(
                raw,
                json_with_text(raw, "version"@, new_version@),
                "version"@,
                new_version@,
            ),
            self.toml() matches Some(document) ==> entry_set(
                document,
                toml_with_text(document, "package"@, "version"@, new_version@),
                "package"@,
                "version"@,
                new_version@,
            ),
    {
        proof {
            use_type_invariant(&self.format);
            self.format.lemma_one_kind();
        }
        match &self.format.document {
            Document::Json(raw) => {
                let mut raw = copy_json(raw);
                set_member_text(&mut raw, "version", new_version);
                match write_pretty(&raw) {
                    Ok(mut output) => {
                        output.append("\n");
                        Ok(output)
                    },
                    Err(_) => Err(TargetError::Unwritable),
                }
            },
            Document::Toml(document) => {
                let mut document = copy_toml(document);
                set_entry_text(&mut document, "package", "version", new_version);
                Ok(write_toml(&document))
            },
        }
    }

    /// Whether the manifest is a `Cargo.toml`-like one, whose package lives in
    /// the crates registry.
    pub fn is_cargo(&self) -> (r: bool)
        ensures
            r == self.toml() is Some,
    {
        match &self.format.document {
            Document::Json(_) => false,
            Document::Toml(_) => true,
        }
    }
}

} // verus!
