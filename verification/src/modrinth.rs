//! The first registry: what is asked of it, and how one of its projects
//! becomes a record.

use crate::document::{text_at, text_reading, texts_at, texts_reading, Tree};
use crate::error::{field_key, Field, ModpackError};
use crate::json::{json_document, json_tree, json_trees, parse_json, read_text, read_texts};
use crate::labels::{
    join, joined, label_rank, lemma_sorted_distinct_is_strictly_ascending, marked, sort_labels,
    strictly_ascending,
};
use crate::lookup::Lookup;
use crate::pattern::{all_matched, match_releases, release_marks, release_versions};
use crate::reading::{all_found, found_values, require, require_items, required, Reading};
use crate::record::{side_label, texts, ModpackInfo, Side};
use crate::sorting::is_stable_sort;
use crate::text::same_text;
use crate::version::{comparable, version_rank};
use serde_json::Value;
use vstd::prelude::*;
use vstd::string::StringExecFns;

verus! {

/// How far a project supports one side.
#[derive(Clone, Copy, Debug, PartialEq, Eq, Structural)]
pub enum Support {
    Required,
    Optional,
    Unsupported,
    Other,
}

/// The support level that a word stands for.
pub open spec fn support_named(word: Seq<char>) -> Support {
    if word == "required"@ {
        Support::Required
    } else if word == "optional"@ {
        Support::Optional
    } else if word == "unsupported"@ {
        Support::Unsupported
    } else {
        Support::Other
    }
}

/// The support level that a field states; a field that holds no text
/// states none of the three known levels.
pub open spec fn support_of(reading: Reading<String>) -> Support {
    match reading {
        Reading::Found(word) => support_named(word@),
        _ => Support::Other,
    }
}

/// The support level that a word stands for.
pub fn support_level(word: &str) -> (r: Support)
    ensures
        r == support_named(word@),
{
    if same_text(word, "required") {
        Support::Required
    } else if same_text(word, "optional") {
        Support::Optional
    } else if same_text(word, "unsupported") {
        Support::Unsupported
    } else {
        Support::Other
    }
}

/// The side that needs a project: the client alone where only the client
/// is supported, the server alone where only the server is, else both.
pub open spec fn side_of(client: Support, server: Support) -> Side {
    match (client, server) {
        (Support::Required, Support::Unsupported) => Side::Client,
        (Support::Optional, Support::Unsupported) => Side::Client,
        (Support::Unsupported, Support::Required) => Side::Server,
        (Support::Unsupported, Support::Optional) => Side::Server,
        _ => Side::Both,
    }
}

/// Derives the side from the two support levels.
pub fn derive_side(client: Support, server: Support) -> (r: Side)
    ensures
        r == side_of(client, server),
{
    match (client, server) {
        (Support::Required, Support::Unsupported) => Side::Client,
        (Support::Optional, Support::Unsupported) => Side::Client,
        (Support::Unsupported, Support::Required) => Side::Server,
        (Support::Unsupported, Support::Optional) => Side::Server,
        _ => Side::Both,
    }
}

/// The address that answers for the projects `ids`.
pub open spec fn projects_url(ids: Seq<Seq<char>>) -> Seq<char> {
    "https://api.modrinth.com/v2/projects?ids=[\""@ + joined(ids, "\",\""@) + "\"]"@
}

/// The page of the project with this slug.
pub open spec fn project_page(slug: Seq<char>) -> Seq<char> {
    "https://modrinth.com/mod/"@ + slug
}

/// Plans the lookup of a batch: none for an empty batch, which has no
/// records, and one request for any other.
pub fn plan_modrinth_lookup(mod_ids: &Vec<String>) -> (r: Lookup)
    ensures
        mod_ids@.len() == 0 ==> (r matches Lookup::Finished(mods) && mods@.len() == 0),
        mod_ids@.len() > 0 ==> (r matches Lookup::Get { url } && url@ == projects_url(
            texts(mod_ids@),
        )),
{
    if mod_ids.len() == 0 {
        return Lookup::Finished(Vec::new());
    }
    let mut url = "https://api.modrinth.com/v2/projects?ids=[\"".to_owned();
    let ids = join(mod_ids, "\",\"");
    url.append(ids.as_str());
    url.append("\"]");
    Lookup::Get { url }
}

/// What was read of one project.
#[derive(Debug, PartialEq, Eq)]
pub struct ProjectFields {
    pub title: Reading<String>,
    pub slug: Reading<String>,
    pub client_side: Reading<String>,
    pub server_side: Reading<String>,
    pub loaders: Reading<Vec<Option<String>>>,
    pub game_versions: Reading<Vec<Option<String>>>,
}

/// The texts of a list field, which must be a list of texts.
pub open spec fn required_texts(reading: Reading<Vec<Option<String>>>, field: Field) -> Result<
    Seq<String>,
    ModpackError,
> {
    match reading {
        Reading::Absent => Err(ModpackError::Missing(field)),
        Reading::Mistyped => Err(ModpackError::Mistyped(field)),
        Reading::Found(items) => {
            if all_found(items@) {
                Ok(found_values(items@))
            } else {
                Err(ModpackError::Mistyped(field))
            }
        },
    }
}

/// The first thing that is wrong with the fields of a project, taken in
/// the order title, slug, client side, server side, loaders, versions. The
/// two sides must be there but need not be text.
pub open spec fn field_error(fields: ProjectFields) -> Option<ModpackError> {
    if required(fields.title, Field::Title) is Err {
        Some(required(fields.title, Field::Title)->Err_0)
    } else if required(fields.slug, Field::Slug) is Err {
        Some(required(fields.slug, Field::Slug)->Err_0)
    } else if fields.client_side is Absent {
        Some(ModpackError::Missing(Field::ClientSide))
    } else if fields.server_side is Absent {
        Some(ModpackError::Missing(Field::ServerSide))
    } else if required_texts(fields.loaders, Field::Loaders) is Err {
        Some(required_texts(fields.loaders, Field::Loaders)->Err_0)
    } else if required_texts(fields.game_versions, Field::GameVersions) is Err {
        Some(required_texts(fields.game_versions, Field::GameVersions)->Err_0)
    } else {
        None
    }
}

/// A project whose fields are in order.
#[derive(Debug, PartialEq, Eq)]
pub struct Project {
    pub title: String,
    pub slug: String,
    pub client_side: Support,
    pub server_side: Support,
    pub loaders: Vec<String>,
    pub game_versions: Vec<String>,
}

/// `project` holds what the fields hold.
pub open spec fn is_checked(project: Project, fields: ProjectFields) -> bool {
    &&& project.title == fields.title->Found_0
    &&& project.slug == fields.slug->Found_0
    &&& project.client_side == support_of(fields.client_side)
    &&& project.server_side == support_of(fields.server_side)
    &&& project.loaders@ == required_texts(fields.loaders, Field::Loaders)->Ok_0
    &&& project.game_versions@ == required_texts(fields.game_versions, Field::GameVersions)->Ok_0
}

/// `record` is what `project` makes, where `marks` says of each declared
/// version whether it is kept: versions newest first, loaders ascending,
/// and strictly so where the project names no loader twice.
pub open spec fn is_project_record(record: ModpackInfo, project: Project, marks: Seq<bool>) -> bool {
    &&& record.name == project.title
    &&& record.url@ == project_page(project.slug@)
    &&& record.side@ == side_label(side_of(project.client_side, project.server_side))
    &&& is_stable_sort(record.loaders@, project.loaders@, label_rank())
    &&& texts(project.loaders@).no_duplicates() ==> strictly_ascending(texts(record.loaders@))
    &&& is_stable_sort(
        record.game_versions@,
        marked(project.game_versions@, marks),
        version_rank(),
    )
}

/// The texts of a list field.
fn require_texts(reading: Reading<Vec<Option<String>>>, field: Field) -> (r: Result<
    Vec<String>,
    ModpackError,
>)
    ensures
        match required_texts(reading, field) {
            Ok(values) => r is Ok && r->Ok_0@ == values,
            Err(e) => r == Err::<Vec<String>, ModpackError>(e),
        },
{
    match reading {
        Reading::Absent => Err(ModpackError::Missing(field)),
        Reading::Mistyped => Err(ModpackError::Mistyped(field)),
        Reading::Found(items) => require_items(items, field),
    }
}

/// The support level that a field states.
fn support_read(reading: &Reading<String>) -> (r: Support)
    ensures
        r == support_of(*reading),
{
    match reading {
        Reading::Found(word) => support_level(word.as_str()),
        _ => Support::Other,
    }
}

/// Insists on the fields of a project. The first field that is wrong
/// gives the error.
pub fn check_project(fields: ProjectFields) -> (r: Result<Project, ModpackError>)
    ensures
        match field_error(fields) {
            Some(e) => r == Err::<Project, ModpackError>(e),
            None => r is Ok && is_checked(r->Ok_0, fields),
        },
{
    let ProjectFields { title, slug, client_side, server_side, loaders, game_versions } = fields;
    let title = match require(title, Field::Title) {
        Ok(title) => title,
        Err(e) => {
            return Err(e);
        },
    };
    let slug = match require(slug, Field::Slug) {
        Ok(slug) => slug,
        Err(e) => {
            return Err(e);
        },
    };
    if let Reading::Absent = client_side {
        return Err(ModpackError::Missing(Field::ClientSide));
    }
    if let Reading::Absent = server_side {
        return Err(ModpackError::Missing(Field::ServerSide));
    }
    let loaders = match require_texts(loaders, Field::Loaders) {
        Ok(loaders) => loaders,
        Err(e) => {
            return Err(e);
        },
    };
    let game_versions = match require_texts(game_versions, Field::GameVersions) {
        Ok(declared) => declared,
        Err(e) => {
            return Err(e);
        },
    };
    Ok(
        Project {
            title,
            slug,
            client_side: support_read(&client_side),
            server_side: support_read(&server_side),
            loaders,
            game_versions,
        },
    )
}

/// What stands in the way of keeping the released versions among
/// `declared`, if anything: a pattern that the pattern engine does not
/// accept, or kept versions that cannot be compared.
pub open spec fn versions_error(declared: Seq<String>) -> Option<ModpackError> {
    if !all_matched(declared) {
        Some(ModpackError::Pattern)
    } else if !comparable(marked(declared, release_marks(declared))) {
        Some(ModpackError::MalformedVersion)
    } else {
        None
    }
}

impl Project {
    /// Makes the record of this project, given for each declared version
    /// whether it is kept. It fails where two of the kept versions cannot
    /// be compared.
    pub fn into_record(self, marks: &Vec<bool>) -> (r: Result<ModpackInfo, ModpackError>)
        ensures
            comparable(marked(self.game_versions@, marks@)) ==> r is Ok && is_project_record(
                r->Ok_0,
                self,
                marks@,
            ),
            !comparable(marked(self.game_versions@, marks@)) ==> r == Err::<
                ModpackInfo,
                ModpackError,
            >(ModpackError::MalformedVersion),
    {
        let Project { title, slug, client_side, server_side, loaders, game_versions } = self;
        let game_versions = match release_versions(game_versions, marks) {
            Ok(kept) => kept,
            Err(e) => {
                return Err(e);
            },
        };
        let side = derive_side(client_side, server_side);
        let mut url = "https://modrinth.com/mod/".to_owned();
        url.append(slug.as_str());
        let sorted = sort_labels(loaders);
        proof {
            if texts(loaders@).no_duplicates() {
                lemma_sorted_distinct_is_strictly_ascending(sorted@, loaders@);
            }
        }
        Ok(ModpackInfo { name: title, side: side.label(), url, game_versions, loaders: sorted })
    }

    /// What stands in the way of a record of this project, if anything.
    pub open spec fn record_error(self) -> Option<ModpackError> {
        versions_error(self.game_versions@)
    }

    /// Makes the record of this project: its declared versions are matched
    /// against the version pattern, and those that match are kept.
    pub fn normalize(self) -> (r: Result<ModpackInfo, ModpackError>)
        ensures
            match self.record_error() {
                Some(e) => r == Err::<ModpackInfo, ModpackError>(e),
                None => r is Ok && is_project_record(
                    r->Ok_0,
                    self,
                    release_marks(self.game_versions@),
                ),
            },
    {
        match match_releases(&self.game_versions) {
            Err(e) => Err(e),
            Ok(marks) => self.into_record(&marks),
        }
    }
}

/// The declared versions of a project whose fields are in order.
pub open spec fn declared_versions(fields: ProjectFields) -> Seq<String> {
    required_texts(fields.game_versions, Field::GameVersions)->Ok_0
}

/// Why the fields of a project make no record, if they make none: the
/// first field that is wrong, or else what is wrong with the versions.
pub open spec fn project_error(fields: ProjectFields) -> Option<ModpackError> {
    match field_error(fields) {
        Some(e) => Some(e),
        None => versions_error(declared_versions(fields)),
    }
}

/// `record` is what the fields of a project make: the title as name, the
/// page of the slug, the side that the two support levels give, the
/// loaders ascending, and strictly so where none is named twice, and the
/// released versions newest first.
pub open spec fn is_record_of(record: ModpackInfo, fields: ProjectFields) -> bool {
    &&& record.name == fields.title->Found_0
    &&& record.url@ == project_page(fields.slug->Found_0@)
    &&& record.side@ == side_label(
        side_of(support_of(fields.client_side), support_of(fields.server_side)),
    )
    &&& is_stable_sort(
        record.loaders@,
        required_texts(fields.loaders, Field::Loaders)->Ok_0,
        label_rank(),
    )
    &&& texts(required_texts(fields.loaders, Field::Loaders)->Ok_0).no_duplicates()
        ==> strictly_ascending(texts(record.loaders@))
    &&& is_stable_sort(
        record.game_versions@,
        marked(declared_versions(fields), release_marks(declared_versions(fields))),
        version_rank(),
    )
}

/// Makes the record of one project from what was read of it.
pub fn normalize_project(fields: ProjectFields) -> (r: Result<ModpackInfo, ModpackError>)
    ensures
        match project_error(fields) {
            Some(e) => r == Err::<ModpackInfo, ModpackError>(e),
            None => r is Ok && is_record_of(r->Ok_0, fields),
        },
{
    match check_project(fields) {
        Err(e) => Err(e),
        Ok(project) => project.normalize(),
    }
}

/// `r` is what comes of the projects with these fields: the error of the
/// first project that makes no record, or else the record of each, in
/// their order.
pub open spec fn is_normalized(
    r: Result<Vec<ModpackInfo>, ModpackError>,
    all: Seq<ProjectFields>,
) -> bool {
    &&& r matches Ok(mods) ==> mods@.len() == all.len() && forall|i: int|
        0 <= i < all.len() ==> project_error(#[trigger] all[i]) is None && is_record_of(
            mods@[i],
            all[i],
        )
    &&& r matches Err(e) ==> exists|i: int|
        0 <= i < all.len() && project_error(#[trigger] all[i]) == Some(e) && forall|k: int|
            0 <= k < i ==> project_error(#[trigger] all[k]) is None
}

/// Makes the records of the projects of one response, in their order. The
/// first project that makes none ends the run with its error.
pub fn normalize_projects(all: Vec<ProjectFields>) -> (r: Result<Vec<ModpackInfo>, ModpackError>)
    ensures
        is_normalized(r, all@),
{
    let mut mods: Vec<ModpackInfo> = Vec::new();
    for fields in it: all
        invariant
            it.seq() == all@,
            mods@.len() == it.index(),
            forall|i: int|
                0 <= i < it.index() ==> project_error(#[trigger] all@[i]) is None && is_record_of(
                    mods@[i],
                    all@[i],
                ),
    {
        match normalize_project(fields) {
            Err(e) => {
                return Err(e);
            },
            Ok(record) => {
                mods.push(record);
            },
        }
    }
    Ok(mods)
}

/// `fields` is what reading a project gives that holds `tree`: title,
/// slug and the two sides as texts, loaders and versions as lists of
/// texts, each under its name.
pub open spec fn is_project_reading(fields: ProjectFields, tree: Tree) -> bool {
    &&& text_reading(fields.title) == text_at(tree, field_key(Field::Title))
    &&& text_reading(fields.slug) == text_at(tree, field_key(Field::Slug))
    &&& text_reading(fields.client_side) == text_at(tree, field_key(Field::ClientSide))
    &&& text_reading(fields.server_side) == text_at(tree, field_key(Field::ServerSide))
    &&& texts_reading(fields.loaders) == texts_at(tree, field_key(Field::Loaders))
    &&& texts_reading(fields.game_versions) == texts_at(tree, field_key(Field::GameVersions))
}

/// Each of `all` is what reading the project at its place in `items`
/// gives.
pub open spec fn are_project_readings(all: Seq<ProjectFields>, items: Seq<Tree>) -> bool {
    all.len() == items.len() && forall|i: int|
        0 <= i < all.len() ==> is_project_reading(#[trigger] all[i], items[i])
}

/// What was read of one project of a response.
fn read_project(item: &Value) -> (r: ProjectFields)
    ensures
        is_project_reading(r, json_tree(*item)),
{
    ProjectFields {
        title: read_text(item, Field::Title.key()),
        slug: read_text(item, Field::Slug.key()),
        client_side: read_text(item, Field::ClientSide.key()),
        server_side: read_text(item, Field::ServerSide.key()),
        loaders: read_texts(item, Field::Loaders.key()),
        game_versions: read_texts(item, Field::GameVersions.key()),
    }
}

/// What was read of the projects of a response, which must be a JSON
/// document that is a list.
pub fn read_projects(body: &str) -> (r: Result<Vec<ProjectFields>, ModpackError>)
    ensures
        match json_document(body@) {
            Some(Tree::List(items)) => r is Ok && are_project_readings(r->Ok_0@, items),
            _ => r == Err::<Vec<ProjectFields>, ModpackError>(ModpackError::Parse),
        },
{
    let document = match parse_json(body) {
        Ok(document) => document,
        Err(_) => {
            return Err(ModpackError::Parse);
        },
    };
    let items = match document.as_array() {
        Some(items) => items,
        None => {
            return Err(ModpackError::Parse);
        },
    };
    let mut all: Vec<ProjectFields> = Vec::new();
    let mut i: usize = 0;
    while i < items.len()
        invariant
            i <= items.len(),
            all@.len() == i,
            forall|k: int|
                0 <= k < i ==> is_project_reading(#[trigger] all@[k], json_tree(items@[k])),
        decreases items.len() - i,
    {
        all.push(read_project(&items[i]));
        i += 1;
    }
    proof {
        assert(are_project_readings(all@, json_trees(items@)));
    }
    Ok(all)
}

/// `record` is a record of this registry: what the fields of some project
/// make.
pub open spec fn is_modrinth_record(record: ModpackInfo) -> bool {
    exists|fields: ProjectFields|
        project_error(fields) is None && #[trigger] is_record_of(record, fields)
}

/// Makes the records of the projects that a response describes, in the
/// order of the response. A response that is no list of projects, a
/// project with a field that is wrong, and versions that cannot be
/// sorted each end the run.
pub fn get_modrinth_mods(body: &str) -> (r: Result<Vec<ModpackInfo>, ModpackError>)
    ensures
        match json_document(body@) {
            Some(Tree::List(items)) => exists|all: Seq<ProjectFields>|
                #![trigger are_project_readings(all, items)]
                are_project_readings(all, items) && is_normalized(r, all),
            _ => r == Err::<Vec<ModpackInfo>, ModpackError>(ModpackError::Parse),
        },
        r matches Ok(mods) ==> forall|i: int|
            0 <= i < mods@.len() ==> is_modrinth_record(#[trigger] mods@[i]),
        r matches Err(e) ==> e == ModpackError::Parse || exists|fields: ProjectFields| #[trigger]
            project_error(fields) == Some(e),
{
    match read_projects(body) {
        Err(e) => Err(e),
        Ok(all) => {
            let r = normalize_projects(all);
            proof {
                let items = json_document(body@)->0->List_0;
                assert(are_project_readings(all@, items) && is_normalized(r, all@));
                if r is Err {
                    let i = choose|i: int|
                        0 <= i < all@.len() && project_error(#[trigger] all@[i]) == Some(
                            r->Err_0,
                        );
                    assert(project_error(all@[i]) == Some(r->Err_0));
                }
                if r is Ok {
                    let mods = r->Ok_0;
                    assert forall|i: int| 0 <= i < mods@.len() implies is_modrinth_record(
                        #[trigger] mods@[i],
                    ) by {
                        assert(project_error(all@[i]) is None);
                        assert(is_record_of(mods@[i], all@[i]));
                    }
                }
            }
            r
        },
    }
}

} // verus!
