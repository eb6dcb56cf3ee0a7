//! The ways in which a run can fail.

use vstd::prelude::*;
use vstd::string::StringExecFns;

verus! {

/// A field that a document is required to hold.
#[derive(Clone, Copy, Debug, PartialEq, Eq, Structural)]
pub enum Field {
    Files,
    ProjectId,
    ModId,
    Name,
    Side,
    Download,
    Url,
    Title,
    Slug,
    ClientSide,
    ServerSide,
    Loaders,
    GameVersions,
    Data,
    Links,
    WebsiteUrl,
    LatestFilesIndexes,
    GameVersion,
}

/// Why a run was abandoned.
#[derive(Clone, Copy, Debug, PartialEq, Eq, Structural)]
pub enum ModpackError {
    /// A document is not well-formed TOML or JSON.
    Parse,
    /// A required field is absent.
    Missing(Field),
    /// A required field holds a value of the wrong type.
    Mistyped(Field),
    /// Two version strings had to be compared and one of them has no
    /// numeric minor version, or a patch version that is not numeric.
    MalformedVersion,
    /// The version pattern was not accepted by the pattern engine.
    Pattern,
}

/// The name under which a document holds a field.
pub open spec fn field_key(field: Field) -> Seq<char> {
    match field {
        Field::Files => "files"@,
        Field::ProjectId => "project-id"@,
        Field::ModId => "mod-id"@,
        Field::Name => "name"@,
        Field::Side => "side"@,
        Field::Download => "download"@,
        Field::Url => "url"@,
        Field::Title => "title"@,
        Field::Slug => "slug"@,
        Field::ClientSide => "client_side"@,
        Field::ServerSide => "server_side"@,
        Field::Loaders => "loaders"@,
        Field::GameVersions => "game_versions"@,
        Field::Data => "data"@,
        Field::Links => "links"@,
        Field::WebsiteUrl => "websiteUrl"@,
        Field::LatestFilesIndexes => "latestFilesIndexes"@,
        Field::GameVersion => "gameVersion"@,
    }
}

/// What an error says.
pub open spec fn message_text(error: ModpackError) -> Seq<char> {
    match error {
        ModpackError::Parse => "can't parse a document"@,
        ModpackError::Missing(field) => "can't find "@ + field_key(field),
        ModpackError::Mistyped(field) => "can't read "@ + field_key(field),
        ModpackError::MalformedVersion => "can't compare a game version"@,
        ModpackError::Pattern => "can't use the version pattern"@,
    }
}

impl Field {
    /// The name under which a document holds this field.
    pub fn key(self) -> (r: &'static str)
        ensures
            r@ == field_key(self),
    {
        match self {
            Field::Files => "files",
            Field::ProjectId => "project-id",
            Field::ModId => "mod-id",
            Field::Name => "name",
            Field::Side => "side",
            Field::Download => "download",
            Field::Url => "url",
            Field::Title => "title",
            Field::Slug => "slug",
            Field::ClientSide => "client_side",
            Field::ServerSide => "server_side",
            Field::Loaders => "loaders",
            Field::GameVersions => "game_versions",
            Field::Data => "data",
            Field::Links => "links",
            Field::WebsiteUrl => "websiteUrl",
            Field::LatestFilesIndexes => "latestFilesIndexes",
            Field::GameVersion => "gameVersion",
        }
    }
}

impl ModpackError {
    /// What this error says.
    pub fn message(self) -> (r: String)
        ensures
            r@ == message_text(self),
    {
        match self {
            ModpackError::Parse => "can't parse a document".to_owned(),
            ModpackError::Missing(field) => "can't find ".to_owned().concat(field.key()),
            ModpackError::Mistyped(field) => "can't read ".to_owned().concat(field.key()),
            ModpackError::MalformedVersion => "can't compare a game version".to_owned(),
            ModpackError::Pattern => "can't use the version pattern".to_owned(),
        }
    }
}

} // verus!
