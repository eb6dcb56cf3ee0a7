//! The second registry: what is asked of it, and how one of its mods
//! becomes a record.

use crate::document::{integer_in, list_at, member, text_at, text_reading, Tree};
use crate::error::{field_key, Field, ModpackError};
use crate::json::{
    json_document, json_member, json_tree, json_trees, parse_json, read_items, read_text,
};
use crate::labels::{
    collect_labels, insert_label, inserted, label_set, lemma_inserted, strictly_ascending,
};
use crate::lookup::Lookup;
use crate::reading::{require, required, Reading};
use crate::record::{side_label, texts, ModpackInfo, Side};
use crate::sorting::is_stable_sort;
use crate::version::{comparable, sort_game_versions, version_rank};
use serde_json::Value;
use vstd::prelude::*;

verus! {

/// The name of the loader that a code stands for. A loader field that
/// holds no integer, and any code outside the table, stand for no known
/// loader.
pub open spec fn loader_label(code: Option<i64>) -> Seq<char> {
    match code {
        Some(0) => "any"@,
        Some(1) => "forge"@,
        Some(2) => "cauldron"@,
        Some(3) => "liteloader"@,
        Some(4) => "fabric"@,
        Some(5) => "quilt"@,
        Some(6) => "neoforge"@,
        _ => "unknown"@,
    }
}

/// The name of the loader that a code stands for.
pub fn loader_name(code: Option<i64>) -> (r: String)
    ensures
        r@ == loader_label(code),
{
    match code {
        Some(0) => "any".to_owned(),
        Some(1) => "forge".to_owned(),
        Some(2) => "cauldron".to_owned(),
        Some(3) => "liteloader".to_owned(),
        Some(4) => "fabric".to_owned(),
        Some(5) => "quilt".to_owned(),
        Some(6) => "neoforge".to_owned(),
        _ => "unknown".to_owned(),
    }
}

/// The address that answers for a batch of mods.
pub open spec fn mods_url() -> Seq<char> {
    "https://api.curseforge.com/v1/mods"@
}

/// Plans the lookup of a batch: none for an empty batch and none without
/// an access key, either of which has no records, and one request for any
/// other.
pub fn plan_curseforge_lookup(mod_ids: Vec<i64>, api_key: &str) -> (r: Lookup)
    ensures
        mod_ids@.len() == 0 || api_key@.len() == 0 ==> (r matches Lookup::Finished(mods)
            && mods@.len() == 0),
        mod_ids@.len() > 0 && api_key@.len() > 0 ==> (r matches Lookup::Post {
            url,
            api_key: key,
            mod_ids: ids,
        } && url@ == mods_url() && key@ == api_key@ && ids == mod_ids),
{
    if mod_ids.len() == 0 || api_key.is_empty() {
        return Lookup::Finished(Vec::new());
    }
    Lookup::Post {
        url: "https://api.curseforge.com/v1/mods".to_owned(),
        api_key: api_key.to_owned(),
        mod_ids,
    }
}

/// What was read of one entry of the file index of a mod. The loader is
/// `None` where the entry has no loader field, and `Some(None)` where the
/// field holds no integer.
#[derive(Debug, PartialEq, Eq)]
pub struct FileIndexFields {
    pub game_version: Reading<String>,
    pub mod_loader: Option<Option<i64>>,
}

/// What was read of one mod. The links are `None` where the mod has no
/// links, and else hold what was read of the website address in them.
#[derive(Debug, PartialEq, Eq)]
pub struct ModFields {
    pub name: Reading<String>,
    pub links: Option<Reading<String>>,
    pub latest_files_indexes: Reading<Vec<FileIndexFields>>,
}

/// One entry of the file index of a mod.
#[derive(Debug, PartialEq, Eq)]
pub struct FileIndex {
    pub game_version: String,
    pub mod_loader: Option<Option<i64>>,
}

/// A mod whose fields are in order.
#[derive(Debug, PartialEq, Eq)]
pub struct Mod {
    pub name: String,
    pub url: String,
    pub files: Vec<FileIndex>,
}

/// What the first entry at or after `from` that lacks its version gives
/// as error, if there is such an entry.
pub open spec fn index_error_from(entries: Seq<FileIndexFields>, from: int) -> Option<
    ModpackError,
>
    decreases entries.len() - from,
{
    if from >= entries.len() {
        None
    } else if entries[from].game_version is Found {
        index_error_from(entries, from + 1)
    } else {
        Some(required(entries[from].game_version, Field::GameVersion)->Err_0)
    }
}

/// The first thing that is wrong with the fields of a mod, taken in the
/// order name, links, website address, file index, and then the entries
/// of the file index in their order.
pub open spec fn field_error(fields: ModFields) -> Option<ModpackError> {
    if required(fields.name, Field::Name) is Err {
        Some(required(fields.name, Field::Name)->Err_0)
    } else if fields.links is None {
        Some(ModpackError::Missing(Field::Links))
    } else if required(fields.links->0, Field::WebsiteUrl) is Err {
        Some(required(fields.links->0, Field::WebsiteUrl)->Err_0)
    } else if required(fields.latest_files_indexes, Field::LatestFilesIndexes) is Err {
        Some(required(fields.latest_files_indexes, Field::LatestFilesIndexes)->Err_0)
    } else {
        index_error_from(fields.latest_files_indexes->Found_0@, 0)
    }
}

/// `file` holds what `entry` holds.
pub open spec fn is_checked_entry(file: FileIndex, entry: FileIndexFields) -> bool {
    entry.game_version == Reading::Found(file.game_version) && file.mod_loader
        == entry.mod_loader
}

/// `checked` holds what the fields hold.
pub open spec fn is_checked(checked: Mod, fields: ModFields) -> bool {
    &&& checked.name == fields.name->Found_0
    &&& checked.url == fields.links->0->Found_0
    &&& checked.files@.len() == fields.latest_files_indexes->Found_0@.len()
    &&& forall|i: int|
        0 <= i < checked.files@.len() ==> is_checked_entry(
            #[trigger] checked.files@[i],
            fields.latest_files_indexes->Found_0@[i],
        )
}

/// Insists on the version of every entry of a file index.
fn check_entries(entries: Vec<FileIndexFields>) -> (r: Result<Vec<FileIndex>, ModpackError>)
    ensures
        match index_error_from(entries@, 0) {
            Some(e) => r == Err::<Vec<FileIndex>, ModpackError>(e),
            None => r is Ok && r->Ok_0@.len() == entries@.len() && forall|i: int|
                0 <= i < entries@.len() ==> is_checked_entry(
                    #[trigger] r->Ok_0@[i],
                    entries@[i],
                ),
        },
{
    let mut files: Vec<FileIndex> = Vec::new();
    for entry in it: entries
        invariant
            it.seq() == entries@,
            files@.len() == it.index(),
            index_error_from(entries@, 0) == index_error_from(entries@, it.index()),
            forall|i: int|
                0 <= i < it.index() ==> is_checked_entry(#[trigger] files@[i], entries@[i]),
    {
        let FileIndexFields { game_version, mod_loader } = entry;
        match require(game_version, Field::GameVersion) {
            Err(e) => {
                return Err(e);
            },
            Ok(game_version) => {
                files.push(FileIndex { game_version, mod_loader });
            },
        }
    }
    Ok(files)
}

/// Insists on the fields of a mod. The first field that is wrong gives
/// the error.
pub fn check_mod(fields: ModFields) -> (r: Result<Mod, ModpackError>)
    ensures
        match field_error(fields) {
            Some(e) => r == Err::<Mod, ModpackError>(e),
            None => r is Ok && is_checked(r->Ok_0, fields),
        },
{
    let ModFields { name, links, latest_files_indexes } = fields;
    let name = match require(name, Field::Name) {
        Ok(name) => name,
        Err(e) => {
            return Err(e);
        },
    };
    let website = match links {
        Some(website) => website,
        None => {
            return Err(ModpackError::Missing(Field::Links));
        },
    };
    let url = match require(website, Field::WebsiteUrl) {
        Ok(url) => url,
        Err(e) => {
            return Err(e);
        },
    };
    let entries = match require(latest_files_indexes, Field::LatestFilesIndexes) {
        Ok(entries) => entries,
        Err(e) => {
            return Err(e);
        },
    };
    match check_entries(entries) {
        Err(e) => Err(e),
        Ok(files) => Ok(Mod { name, url, files }),
    }
}

/// The versions that the entries of a file index name, in their order.
pub open spec fn index_versions(files: Seq<FileIndex>) -> Seq<String> {
    files.map_values(|file: FileIndex| file.game_version)
}

/// One of the first `n` entries names a loader called `name`.
pub open spec fn names_loader(files: Seq<FileIndex>, n: int, name: Seq<char>) -> bool {
    exists|i: int|
        0 <= i < n && i < files.len() && (#[trigger] files[i]).mod_loader is Some && loader_label(
            files[i].mod_loader->0,
        ) == name
}

/// `record` is what `checked` makes: its name and address, the side
/// unknown, the loaders that its file index names as a set in ascending
/// order, and the versions that its file index names as a set, newest
/// first, with versions of the same rank in ascending order of their text.
pub open spec fn is_mod_record(record: ModpackInfo, checked: Mod) -> bool {
    &&& record.name == checked.name
    &&& record.url == checked.url
    &&& record.side@ == side_label(Side::Unknown)
    &&& strictly_ascending(texts(record.loaders@))
    &&& forall|name: Seq<char>|
        texts(record.loaders@).contains(name) <==> names_loader(
            checked.files@,
            checked.files@.len() as int,
            name,
        )
    &&& is_stable_sort(
        record.game_versions@,
        label_set(index_versions(checked.files@)),
        version_rank(),
    )
}

impl Mod {
    /// Makes the record of this mod. It fails where two of its versions
    /// cannot be compared.
    pub fn into_record(self) -> (r: Result<ModpackInfo, ModpackError>)
        ensures
            comparable(label_set(index_versions(self.files@))) ==> r is Ok && is_mod_record(
                r->Ok_0,
                self,
            ),
            !comparable(label_set(index_versions(self.files@))) ==> r == Err::<
                ModpackInfo,
                ModpackError,
            >(ModpackError::MalformedVersion),
    {
        let Mod { name, url, files } = self;
        let mut versions: Vec<String> = Vec::new();
        let mut loaders: Vec<String> = Vec::new();
        proof {
            assert(versions@ =~= index_versions(files@.subrange(0, 0)));
        }
        for file in it: files
            invariant
                it.seq() == files@,
                versions@ == index_versions(files@.subrange(0, it.index())),
                strictly_ascending(texts(loaders@)),
                forall|name: Seq<char>|
                    texts(loaders@).contains(name) <==> names_loader(files@, it.index(), name),
        {
            let ghost n = it.index();
            let ghost before = loaders@;
            assert(file == files@[n]);
            let FileIndex { game_version, mod_loader } = file;
            versions.push(game_version);
            proof {
                assert(versions@ =~= index_versions(files@.subrange(0, n + 1)));
                assert forall|name: Seq<char>| names_loader(files@, n, name) implies names_loader(
                    files@,
                    n + 1,
                    name,
                ) by {
                    let i = choose|i: int|
                        0 <= i < n && i < files@.len() && (#[trigger] files@[i]).mod_loader is Some
                            && loader_label(files@[i].mod_loader->0) == name;
                    assert(0 <= i < n + 1 && files@[i].mod_loader is Some);
                }
                assert forall|name: Seq<char>| names_loader(files@, n + 1, name) implies names_loader(
                    files@,
                    n,
                    name,
                ) || (mod_loader is Some && name == loader_label(mod_loader->0)) by {
                    let i = choose|i: int|
                        0 <= i < n + 1 && i < files@.len() && (
                        #[trigger] files@[i]).mod_loader is Some && loader_label(
                            files@[i].mod_loader->0,
                        ) == name;
                    if i < n {
                        assert(0 <= i < n && files@[i].mod_loader is Some);
                    }
                }
            }
            match mod_loader {
                None => {
                    proof {
                        assert forall|name: Seq<char>|
                            texts(loaders@).contains(name) <==> names_loader(
                                files@,
                                n + 1,
                                name,
                            ) by {
                            assert(texts(before).contains(name) <==> names_loader(files@, n, name));
                        }
                    }
                },
                Some(code) => {
                    let label = loader_name(code);
                    insert_label(&mut loaders, label);
                    proof {
                        lemma_inserted(before, label);
                        assert(files@[n].mod_loader is Some);
                        assert(names_loader(files@, n + 1, label@));
                        assert forall|name: Seq<char>|
                            texts(loaders@).contains(name) <==> names_loader(
                                files@,
                                n + 1,
                                name,
                            ) by {
                            assert(texts(before).contains(name) <==> names_loader(files@, n, name));
                            assert(texts(inserted(before, label)).contains(name) <==> (texts(
                                before,
                            ).contains(name) || name == label@));
                        }
                    }
                },
            }
        }
        proof {
            assert(files@.subrange(0, files@.len() as int) =~= files@);
        }
        match sort_game_versions(collect_labels(versions)) {
            Err(e) => Err(e),
            Ok(game_versions) => Ok(
                ModpackInfo { name, side: Side::Unknown.label(), url, game_versions, loaders },
            ),
        }
    }
}

/// Why the fields of a mod make no record, if they make none: the first
/// field that is wrong, or else versions that cannot be compared.
pub open spec fn mod_error(fields: ModFields) -> Option<ModpackError> {
    match field_error(fields) {
        Some(e) => Some(e),
        None => if comparable(label_set(entry_versions(fields.latest_files_indexes->Found_0@))) {
            None
        } else {
            Some(ModpackError::MalformedVersion)
        },
    }
}

/// The versions that the entries of a file index name, in their order,
/// where every entry names one.
pub open spec fn entry_versions(entries: Seq<FileIndexFields>) -> Seq<String> {
    entries.map_values(|entry: FileIndexFields| entry.game_version->Found_0)
}

/// One of the entries names a loader called `name`.
pub open spec fn entry_names_loader(entries: Seq<FileIndexFields>, name: Seq<char>) -> bool {
    exists|i: int|
        0 <= i < entries.len() && (#[trigger] entries[i]).mod_loader is Some && loader_label(
            entries[i].mod_loader->0,
        ) == name
}

/// `record` is what the fields of a mod make: its name and address, the
/// side unknown, the loaders that its file index names as a set in
/// ascending order, and the versions that its file index names as a set,
/// newest first, with versions of the same rank in ascending order of
/// their text.
pub open spec fn is_record_of(record: ModpackInfo, fields: ModFields) -> bool {
    &&& record.name == fields.name->Found_0
    &&& record.url == fields.links->0->Found_0
    &&& record.side@ == side_label(Side::Unknown)
    &&& strictly_ascending(texts(record.loaders@))
    &&& forall|name: Seq<char>|
        texts(record.loaders@).contains(name) <==> entry_names_loader(
            fields.latest_files_indexes->Found_0@,
            name,
        )
    &&& is_stable_sort(
        record.game_versions@,
        label_set(entry_versions(fields.latest_files_indexes->Found_0@)),
        version_rank(),
    )
}

/// Makes the record of one mod from what was read of it.
pub fn normalize_mod(fields: ModFields) -> (r: Result<ModpackInfo, ModpackError>)
    ensures
        match mod_error(fields) {
            Some(e) => r == Err::<ModpackInfo, ModpackError>(e),
            None => r is Ok && is_record_of(r->Ok_0, fields),
        },
{
    match check_mod(fields) {
        Err(e) => Err(e),
        Ok(checked) => {
            let ghost entries = fields.latest_files_indexes->Found_0@;
            proof {
                assert(index_versions(checked.files@) =~= entry_versions(entries));
                assert forall|name: Seq<char>|
                    names_loader(checked.files@, checked.files@.len() as int, name)
                        <==> entry_names_loader(entries, name) by {
                    if names_loader(checked.files@, checked.files@.len() as int, name) {
                        let i = choose|i: int|
                            0 <= i < checked.files@.len() && i < checked.files@.len() && (
                            #[trigger] checked.files@[i]).mod_loader is Some && loader_label(
                                checked.files@[i].mod_loader->0,
                            ) == name;
                        assert(is_checked_entry(checked.files@[i], entries[i]));
                    }
                    if entry_names_loader(entries, name) {
                        let i = choose|i: int|
                            0 <= i < entries.len() && (#[trigger] entries[i]).mod_loader is Some
                                && loader_label(entries[i].mod_loader->0) == name;
                        assert(is_checked_entry(checked.files@[i], entries[i]));
                    }
                }
            }
            checked.into_record()
        },
    }
}

/// `r` is what comes of the mods with these fields: the error of the
/// first mod that makes no record, or else the record of each, in their
/// order.
pub open spec fn is_normalized(r: Result<Vec<ModpackInfo>, ModpackError>, all: Seq<ModFields>) -> bool {
    &&& r matches Ok(mods) ==> mods@.len() == all.len() && forall|i: int|
        0 <= i < all.len() ==> mod_error(#[trigger] all[i]) is None && is_record_of(
            mods@[i],
            all[i],
        )
    &&& r matches Err(e) ==> exists|i: int|
        0 <= i < all.len() && mod_error(#[trigger] all[i]) == Some(e) && forall|k: int|
            0 <= k < i ==> mod_error(#[trigger] all[k]) is None
}

/// Makes the records of the mods of one response, in their order. The
/// first mod that makes none ends the run with its error.
pub fn normalize_mods(all: Vec<ModFields>) -> (r: Result<Vec<ModpackInfo>, ModpackError>)
    ensures
        is_normalized(r, all@),
{
    let mut mods: Vec<ModpackInfo> = Vec::new();
    for fields in it: all
        invariant
            it.seq() == all@,
            mods@.len() == it.index(),
            forall|i: int|
                0 <= i < it.index() ==> mod_error(#[trigger] all@[i]) is None && is_record_of(
                    mods@[i],
                    all@[i],
                ),
    {
        match normalize_mod(fields) {
            Err(e) => {
                return Err(e);
            },
            Ok(record) => {
                mods.push(record);
            },
        }
    }
    Ok(mods)
}

/// What reading the loader of an entry gives that holds `tree`: nothing
/// where the entry names no loader, and else the code that it names, if
/// it names one by an integer.
pub open spec fn loader_at(tree: Tree) -> Option<Option<i64>> {
    match member(tree, "modLoader"@) {
        None => None,
        Some(code) => Some(integer_in(code)),
    }
}

/// `fields` is what reading an entry of a file index gives that holds
/// `tree`.
pub open spec fn is_entry_reading(fields: FileIndexFields, tree: Tree) -> bool {
    &&& text_reading(fields.game_version) == text_at(tree, field_key(Field::GameVersion))
    &&& fields.mod_loader == loader_at(tree)
}

/// Each of `all` is what reading the entry at its place in `items` gives.
pub open spec fn are_entry_readings(all: Seq<FileIndexFields>, items: Seq<Tree>) -> bool {
    all.len() == items.len() && forall|i: int|
        0 <= i < all.len() ==> is_entry_reading(#[trigger] all[i], items[i])
}

/// `fields` is what reading a mod gives that holds `tree`: its name, the
/// website address in its links, and the entries of its file index.
pub open spec fn is_mod_reading(fields: ModFields, tree: Tree) -> bool {
    &&& text_reading(fields.name) == text_at(tree, field_key(Field::Name))
    &&& match member(tree, field_key(Field::Links)) {
        None => fields.links is None,
        Some(links) => fields.links matches Some(website) && text_reading(website) == text_at(
            links,
            field_key(Field::WebsiteUrl),
        ),
    }
    &&& match list_at(tree, field_key(Field::LatestFilesIndexes)) {
        Reading::Absent => fields.latest_files_indexes is Absent,
        Reading::Mistyped => fields.latest_files_indexes is Mistyped,
        Reading::Found(items) => fields.latest_files_indexes matches Reading::Found(entries)
            && are_entry_readings(entries@, items),
    }
}

/// Each of `all` is what reading the mod at its place in `items` gives.
pub open spec fn are_mod_readings(all: Seq<ModFields>, items: Seq<Tree>) -> bool {
    all.len() == items.len() && forall|i: int|
        0 <= i < all.len() ==> is_mod_reading(#[trigger] all[i], items[i])
}

/// What was read of one entry of a file index.
fn read_file_index(entry: &Value) -> (r: FileIndexFields)
    ensures
        is_entry_reading(r, json_tree(*entry)),
{
    FileIndexFields {
        game_version: read_text(entry, Field::GameVersion.key()),
        mod_loader: match json_member(entry, "modLoader") {
            None => None,
            Some(code) => Some(code.as_i64()),
        },
    }
}

/// What was read of one mod of a response.
fn read_mod(item: &Value) -> (r: ModFields)
    ensures
        is_mod_reading(r, json_tree(*item)),
{
    let links = match json_member(item, Field::Links.key()) {
        None => None,
        Some(links) => Some(read_text(links, Field::WebsiteUrl.key())),
    };
    let latest_files_indexes = match read_items(item, Field::LatestFilesIndexes.key()) {
        Reading::Absent => Reading::Absent,
        Reading::Mistyped => Reading::Mistyped,
        Reading::Found(entries) => {
            let mut all: Vec<FileIndexFields> = Vec::new();
            let mut i: usize = 0;
            while i < entries.len()
                invariant
                    i <= entries.len(),
                    all@.len() == i,
                    forall|k: int|
                        0 <= k < i ==> is_entry_reading(
                            #[trigger] all@[k],
                            json_tree(entries@[k]),
                        ),
                decreases entries.len() - i,
            {
                all.push(read_file_index(&entries[i]));
                i += 1;
            }
            proof {
                assert(are_entry_readings(all@, json_trees(entries@)));
            }
            Reading::Found(all)
        },
    };
    ModFields { name: read_text(item, Field::Name.key()), links, latest_files_indexes }
}

/// The mods that a response holds, which must be a JSON document that
/// holds a list under `data`.
pub open spec fn response_items(body: Seq<char>) -> Result<Seq<Tree>, ModpackError> {
    match json_document(body) {
        None => Err(ModpackError::Parse),
        Some(tree) => required(list_at(tree, field_key(Field::Data)), Field::Data),
    }
}

/// What was read of the mods of a response, which must be a JSON document
/// that holds a list under `data`.
pub fn read_mods(body: &str) -> (r: Result<Vec<ModFields>, ModpackError>)
    ensures
        match response_items(body@) {
            Ok(items) => r is Ok && are_mod_readings(r->Ok_0@, items),
            Err(e) => r == Err::<Vec<ModFields>, ModpackError>(e),
        },
{
    let document = match parse_json(body) {
        Ok(document) => document,
        Err(_) => {
            return Err(ModpackError::Parse);
        },
    };
    let items = match require(read_items(&document, Field::Data.key()), Field::Data) {
        Ok(items) => items,
        Err(e) => {
            return Err(e);
        },
    };
    let mut all: Vec<ModFields> = Vec::new();
    let mut i: usize = 0;
    while i < items.len()
        invariant
            i <= items.len(),
            all@.len() == i,
            forall|k: int| 0 <= k < i ==> is_mod_reading(#[trigger] all@[k], json_tree(items@[k])),
        decreases items.len() - i,
    {
        all.push(read_mod(&items[i]));
        i += 1;
    }
    proof {
        assert(are_mod_readings(all@, json_trees(items@)));
    }
    Ok(all)
}

/// `record` is a record of this registry: what the fields of some mod
/// make.
pub open spec fn is_curseforge_record(record: ModpackInfo) -> bool {
    exists|fields: ModFields| mod_error(fields) is None && #[trigger] is_record_of(record, fields)
}

/// Makes the records of the mods that a response describes, in the order
/// of the response. A response that is no document with a list of mods,
/// a mod with a field that is wrong, and versions that cannot be sorted
/// each end the run.
pub fn get_curseforge_mods(body: &str) -> (r: Result<Vec<ModpackInfo>, ModpackError>)
    ensures
        match response_items(body@) {
            Ok(items) => exists|all: Seq<ModFields>|
                #![trigger are_mod_readings(all, items)]
                are_mod_readings(all, items) && is_normalized(r, all),
            Err(e) => r == Err::<Vec<ModpackInfo>, ModpackError>(e),
        },
        r matches Ok(mods) ==> forall|i: int|
            0 <= i < mods@.len() ==> is_curseforge_record(#[trigger] mods@[i]),
        r matches Err(e) ==> e == ModpackError::Parse || e == ModpackError::Missing(Field::Data)
            || e == ModpackError::Mistyped(Field::Data) || exists|fields: ModFields| #[trigger]
            mod_error(fields) == Some(e),
{
    match read_mods(body) {
        Err(e) => Err(e),
        Ok(all) => {
            let r = normalize_mods(all);
            proof {
                let items = response_items(body@)->Ok_0;
                assert(are_mod_readings(all@, items) && is_normalized(r, all@));
                if r is Err {
                    let i = choose|i: int|
                        0 <= i < all@.len() && mod_error(#[trigger] all@[i]) == Some(r->Err_0);
                    assert(mod_error(all@[i]) == Some(r->Err_0));
                }
                if r is Ok {
                    let mods = r->Ok_0;
                    assert forall|i: int| 0 <= i < mods@.len() implies is_curseforge_record(
                        #[trigger] mods@[i],
                    ) by {
                        assert(mod_error(all@[i]) is None);
                        assert(is_record_of(mods@[i], all@[i]));
                    }
                }
            }
            r
        },
    }
}

} // verus!
