//! The scan of a pack: which files describe a mod, and for each of them
//! whether a registry describes the mod or the file does so itself.

use crate::document::{
    flag_in, integer_at, list_at, member, text_at, text_in, text_option, text_reading, Tree,
};
use crate::error::{field_key, Field, ModpackError};
use crate::reading::{require, required, Reading};
use crate::record::{texts, ModpackInfo, Record};
use crate::toml_text::{
    parse_toml, read_integer, read_items, read_text, toml_document, toml_member, toml_tree,
    toml_trees,
};
use toml::Value;
use vstd::prelude::*;

verus! {

/// What was read of one entry of the index of a pack: the path of a file
/// and whether it describes a mod, each where the entry states it.
#[derive(Debug, PartialEq, Eq)]
pub struct IndexEntry {
    pub file: Option<String>,
    pub metafile: Option<bool>,
}

/// The entry names a file and says that it describes a mod.
pub open spec fn is_listed(entry: IndexEntry) -> bool {
    entry.file is Some && entry.metafile == Some(true)
}

/// The paths of the files that describe a mod, in the order of the index.
pub open spec fn listed_paths(entries: Seq<IndexEntry>) -> Seq<String> {
    entries.filter(listed()).map_values(path_of())
}

/// `is_listed` as a predicate.
pub open spec fn listed() -> spec_fn(IndexEntry) -> bool {
    |entry: IndexEntry| is_listed(entry)
}

/// The path that an entry names.
pub open spec fn path_of() -> spec_fn(IndexEntry) -> String {
    |entry: IndexEntry| entry.file->0
}

/// The paths of the files that describe a mod, in the order of the index.
pub fn metafile_paths(entries: Vec<IndexEntry>) -> (paths: Vec<String>)
    ensures
        paths@ == listed_paths(entries@),
{
    let mut paths: Vec<String> = Vec::new();
    proof {
        assert(entries@.subrange(0, 0) =~= Seq::<IndexEntry>::empty());
        assert(Seq::<IndexEntry>::empty().filter(listed()) =~= Seq::<IndexEntry>::empty()) by {
            reveal(Seq::filter);
        }
        assert(paths@ =~= listed_paths(entries@.subrange(0, 0)));
    }
    for entry in it: entries
        invariant
            it.seq() == entries@,
            paths@ == listed_paths(entries@.subrange(0, it.index())),
    {
        proof {
            let done = entries@.subrange(0, it.index());
            assert(entries@.subrange(0, it.index() + 1) =~= done.push(entry));
            done.lemma_filter_push(entry, listed());
            if is_listed(entry) {
                done.filter(listed()).lemma_push_map_commute(path_of(), entry);
            }
        }
        let IndexEntry { file, metafile } = entry;
        match (file, metafile) {
            (Some(path), Some(true)) => {
                paths.push(path);
            },
            _ => {},
        }
    }
    proof {
        assert(entries@.subrange(0, entries@.len() as int) =~= entries@);
    }
    paths
}

/// Where the description of a mod comes from.
#[derive(Clone, Copy, Debug, PartialEq, Eq, Structural)]
pub enum Provenance {
    /// The registry that knows mods by number.
    Curseforge,
    /// The registry that knows mods by name.
    Modrinth,
    /// The file describes the mod itself.
    Hosted,
    /// The file points elsewhere, but to neither registry or to both.
    Unrecognized,
}

/// Where the description comes from: the file itself where it has no
/// update section, the one registry whose section the update section
/// holds, and nowhere known where it holds both sections or neither.
pub open spec fn provenance_of(
    has_update: bool,
    has_curseforge: bool,
    has_modrinth: bool,
) -> Provenance {
    if !has_update {
        Provenance::Hosted
    } else if has_curseforge && !has_modrinth {
        Provenance::Curseforge
    } else if has_modrinth && !has_curseforge {
        Provenance::Modrinth
    } else {
        Provenance::Unrecognized
    }
}

/// Decides where the description of a mod comes from.
pub fn classify(has_update: bool, has_curseforge: bool, has_modrinth: bool) -> (r: Provenance)
    ensures
        r == provenance_of(has_update, has_curseforge, has_modrinth),
{
    if !has_update {
        Provenance::Hosted
    } else if has_curseforge && !has_modrinth {
        Provenance::Curseforge
    } else if has_modrinth && !has_curseforge {
        Provenance::Modrinth
    } else {
        Provenance::Unrecognized
    }
}

/// What was read of the update section of a file: for each registry, what
/// was read of the identifier in its section, where the section is there.
#[derive(Debug, PartialEq, Eq)]
pub struct UpdateFields {
    pub curseforge: Option<Reading<i64>>,
    pub modrinth: Option<Reading<String>>,
}

/// What was read of a file that describes a mod. The download is `None`
/// where the file has no download section, and else holds what was read
/// of the address in it.
#[derive(Debug, PartialEq, Eq)]
pub struct MetafileFields {
    pub update: Option<UpdateFields>,
    pub name: Reading<String>,
    pub side: Reading<String>,
    pub download: Option<Reading<String>>,
}

/// What one file adds to the scan.
#[derive(Debug, PartialEq, Eq)]
pub enum Entry {
    /// A mod that the registry with numbers describes.
    Curseforge(i64),
    /// A mod that the registry with names describes.
    Modrinth(String),
    /// A mod that the file itself describes.
    Hosted(ModpackInfo),
    /// Nothing: the file is passed over.
    Skipped,
}

/// Where the description of the mod of a file comes from.
pub open spec fn provenance(fields: MetafileFields) -> Provenance {
    match fields.update {
        None => provenance_of(false, false, false),
        Some(update) => provenance_of(true, update.curseforge is Some, update.modrinth is Some),
    }
}

/// The first thing that is wrong with a file that describes its mod
/// itself, taken in the order name, side, download section, address.
pub open spec fn hosted_error(fields: MetafileFields) -> Option<ModpackError> {
    if required(fields.name, Field::Name) is Err {
        Some(required(fields.name, Field::Name)->Err_0)
    } else if required(fields.side, Field::Side) is Err {
        Some(required(fields.side, Field::Side)->Err_0)
    } else if fields.download is None {
        Some(ModpackError::Missing(Field::Download))
    } else if required(fields.download->0, Field::Url) is Err {
        Some(required(fields.download->0, Field::Url)->Err_0)
    } else {
        None
    }
}

/// What is wrong with a file, if anything: the identifier that its one
/// registry section must hold, or what it must hold to describe its mod
/// itself. A file that is passed over has nothing wrong with it.
pub open spec fn metafile_error(fields: MetafileFields) -> Option<ModpackError> {
    match provenance(fields) {
        Provenance::Curseforge => match required(
            fields.update->0.curseforge->0,
            Field::ProjectId,
        ) {
            Ok(_) => None,
            Err(e) => Some(e),
        },
        Provenance::Modrinth => match required(fields.update->0.modrinth->0, Field::ModId) {
            Ok(_) => None,
            Err(e) => Some(e),
        },
        Provenance::Hosted => hosted_error(fields),
        Provenance::Unrecognized => None,
    }
}

/// The record of a file that describes its mod itself: its name, side and
/// address, with no versions and no loaders.
pub open spec fn hosted_record(fields: MetafileFields) -> Record {
    Record {
        name: fields.name->Found_0@,
        side: fields.side->Found_0@,
        url: fields.download->0->Found_0@,
        game_versions: Seq::empty(),
        loaders: Seq::empty(),
    }
}

/// `entry` is what a file with nothing wrong adds to the scan.
pub open spec fn is_entry_of(entry: Entry, fields: MetafileFields) -> bool {
    match provenance(fields) {
        Provenance::Curseforge => entry == Entry::Curseforge(
            fields.update->0.curseforge->0->Found_0,
        ),
        Provenance::Modrinth => entry == Entry::Modrinth(fields.update->0.modrinth->0->Found_0),
        Provenance::Hosted => entry matches Entry::Hosted(record) && record@ == hosted_record(
            fields,
        ),
        Provenance::Unrecognized => entry == Entry::Skipped,
    }
}

/// Decides what one file adds to the scan. A file whose update section
/// holds both registry sections, or neither, is passed over without error.
pub fn scan_metafile(fields: MetafileFields) -> (r: Result<Entry, ModpackError>)
    ensures
        match metafile_error(fields) {
            Some(e) => r == Err::<Entry, ModpackError>(e),
            None => r is Ok && is_entry_of(r->Ok_0, fields),
        },
{
    let MetafileFields { update, name, side, download } = fields;
    match update {
        Some(UpdateFields { curseforge, modrinth }) => {
            match classify(true, curseforge.is_some(), modrinth.is_some()) {
                Provenance::Curseforge => match require(curseforge.unwrap(), Field::ProjectId) {
                    Ok(id) => Ok(Entry::Curseforge(id)),
                    Err(e) => Err(e),
                },
                Provenance::Modrinth => match require(modrinth.unwrap(), Field::ModId) {
                    Ok(id) => Ok(Entry::Modrinth(id)),
                    Err(e) => Err(e),
                },
                _ => Ok(Entry::Skipped),
            }
        },
        None => {
            let name = match require(name, Field::Name) {
                Ok(name) => name,
                Err(e) => {
                    return Err(e);
                },
            };
            let side = match require(side, Field::Side) {
                Ok(side) => side,
                Err(e) => {
                    return Err(e);
                },
            };
            let address = match download {
                Some(address) => address,
                None => {
                    return Err(ModpackError::Missing(Field::Download));
                },
            };
            let url = match require(address, Field::Url) {
                Ok(url) => url,
                Err(e) => {
                    return Err(e);
                },
            };
            let record = ModpackInfo {
                name,
                side,
                url,
                game_versions: Vec::new(),
                loaders: Vec::new(),
            };
            proof {
                assert(record@.game_versions =~= Seq::<Seq<char>>::empty());
                assert(record@.loaders =~= Seq::<Seq<char>>::empty());
            }
            Ok(Entry::Hosted(record))
        },
    }
}

/// What a scan has gathered: the mods that describe themselves, and the
/// identifiers to ask each registry about.
#[derive(Debug, PartialEq, Eq)]
pub struct Batches {
    pub mods: Vec<ModpackInfo>,
    pub modrinth_ids: Vec<String>,
    pub curseforge_ids: Vec<i64>,
}

/// The three lists of a scan.
pub struct BatchesView {
    pub mods: Seq<ModpackInfo>,
    pub modrinth_ids: Seq<String>,
    pub curseforge_ids: Seq<i64>,
}

impl View for Batches {
    type V = BatchesView;

    open spec fn view(&self) -> BatchesView {
        BatchesView {
            mods: self.mods@,
            modrinth_ids: self.modrinth_ids@,
            curseforge_ids: self.curseforge_ids@,
        }
    }
}

/// The lists with what `entry` adds at the end of the list it belongs to.
pub open spec fn with_entry(batches: BatchesView, entry: Entry) -> BatchesView {
    match entry {
        Entry::Curseforge(id) => BatchesView {
            curseforge_ids: batches.curseforge_ids.push(id),
            ..batches
        },
        Entry::Modrinth(id) => BatchesView {
            modrinth_ids: batches.modrinth_ids.push(id),
            ..batches
        },
        Entry::Hosted(record) => BatchesView { mods: batches.mods.push(record), ..batches },
        Entry::Skipped => batches,
    }
}

/// The lists with what each of `entries` adds, in their order.
pub open spec fn with_entries(batches: BatchesView, entries: Seq<Entry>) -> BatchesView
    decreases entries.len(),
{
    if entries.len() == 0 {
        batches
    } else {
        with_entry(with_entries(batches, entries.drop_last()), entries.last())
    }
}

impl Batches {
    /// A scan that has gathered nothing.
    pub fn new() -> (r: Batches)
        ensures
            r@.mods.len() == 0,
            r@.modrinth_ids.len() == 0,
            r@.curseforge_ids.len() == 0,
    {
        Batches { mods: Vec::new(), modrinth_ids: Vec::new(), curseforge_ids: Vec::new() }
    }

    /// Adds what one file adds: an identifier for one registry, a record,
    /// or nothing.
    pub fn add(&mut self, entry: Entry)
        ensures
            final(self)@ == with_entry(old(self)@, entry),
    {
        match entry {
            Entry::Curseforge(id) => {
                self.curseforge_ids.push(id);
            },
            Entry::Modrinth(id) => {
                self.modrinth_ids.push(id);
            },
            Entry::Hosted(record) => {
                self.mods.push(record);
            },
            Entry::Skipped => {},
        }
    }
}

/// The record names neither versions nor loaders, as every record does
/// that a file makes of itself.
pub open spec fn is_bare(record: ModpackInfo) -> bool {
    record.game_versions@.len() == 0 && record.loaders@.len() == 0
}

/// Scans the files that describe the mods of a pack, in their order. The
/// first file with something wrong ends the scan with its error.
pub fn scan_metafiles(all: Vec<MetafileFields>) -> (r: Result<Batches, ModpackError>)
    ensures
        r matches Ok(batches) ==> forall|k: int|
            0 <= k < batches.mods@.len() ==> is_bare(#[trigger] batches.mods@[k]),
        r matches Ok(batches) ==> exists|entries: Seq<Entry>|
            entries.len() == all@.len() && batches@ == with_entries(
                BatchesView {
                    mods: Seq::empty(),
                    modrinth_ids: Seq::empty(),
                    curseforge_ids: Seq::empty(),
                },
                entries,
            ) && forall|i: int|
                0 <= i < all@.len() ==> metafile_error(#[trigger] all@[i]) is None && is_entry_of(
                    entries[i],
                    all@[i],
                ),
        r matches Err(e) ==> exists|i: int|
            0 <= i < all@.len() && metafile_error(#[trigger] all@[i]) == Some(e) && forall|k: int|
                0 <= k < i ==> metafile_error(#[trigger] all@[k]) is None,
{
    let mut batches = Batches::new();
    let ghost nothing = BatchesView {
        mods: Seq::empty(),
        modrinth_ids: Seq::empty(),
        curseforge_ids: Seq::empty(),
    };
    let ghost mut entries: Seq<Entry> = Seq::empty();
    proof {
        assert(batches@.mods =~= nothing.mods);
        assert(batches@.modrinth_ids =~= nothing.modrinth_ids);
        assert(batches@.curseforge_ids =~= nothing.curseforge_ids);
    }
    for fields in it: all
        invariant
            it.seq() == all@,
            entries.len() == it.index(),
            batches@ == with_entries(nothing, entries),
            forall|k: int| 0 <= k < batches.mods@.len() ==> is_bare(#[trigger] batches.mods@[k]),
            forall|i: int|
                0 <= i < it.index() ==> metafile_error(#[trigger] all@[i]) is None && is_entry_of(
                    entries[i],
                    all@[i],
                ),
    {
        match scan_metafile(fields) {
            Err(e) => {
                return Err(e);
            },
            Ok(entry) => {
                let ghost before = batches.mods@;
                proof {
                    assert(entries.push(entry).drop_last() =~= entries);
                    entries = entries.push(entry);
                    assert(is_entry_of(entry, fields));
                    if entry is Hosted {
                        let record = entry->Hosted_0;
                        assert(record@ == hosted_record(fields));
                        assert(record@.game_versions.len() == record.game_versions@.len());
                        assert(record@.loaders.len() == record.loaders@.len());
                        assert(is_bare(record));
                    }
                }
                batches.add(entry);
                proof {
                    assert forall|k: int| 0 <= k < batches.mods@.len() implies is_bare(
                        #[trigger] batches.mods@[k],
                    ) by {
                        if k < before.len() {
                            assert(batches.mods@[k] == before[k]);
                        }
                    }
                }
            },
        }
    }
    Ok(batches)
}

/// `entry` is what reading an entry of the index gives that holds `tree`:
/// the path under `file` if it is a text, and the truth value under
/// `metafile` if it is one.
pub open spec fn is_index_reading(entry: IndexEntry, tree: Tree) -> bool {
    &&& text_option(entry.file) == match member(tree, "file"@) {
        None => None,
        Some(path) => text_in(path),
    }
    &&& entry.metafile == match member(tree, "metafile"@) {
        None => None,
        Some(flag) => flag_in(flag),
    }
}

/// Each of `all` is what reading the entry at its place in `items` gives.
pub open spec fn are_index_readings(all: Seq<IndexEntry>, items: Seq<Tree>) -> bool {
    all.len() == items.len() && forall|i: int|
        0 <= i < all.len() ==> is_index_reading(#[trigger] all[i], items[i])
}

/// The entries that an index holds, which must be a TOML document that
/// holds a list under `files`.
pub open spec fn index_items(text: Seq<char>) -> Result<Seq<Tree>, ModpackError> {
    match toml_document(text) {
        None => Err(ModpackError::Parse),
        Some(tree) => required(list_at(tree, field_key(Field::Files)), Field::Files),
    }
}

/// The path that an entry of an index names that holds `item`, if it
/// names one.
pub open spec fn path_in(item: Tree) -> Option<Seq<char>> {
    match member(item, "file"@) {
        None => None,
        Some(path) => text_in(path),
    }
}

/// The entry of an index that holds `item` names a file and says that it
/// describes a mod.
pub open spec fn is_listed_item(item: Tree) -> bool {
    path_in(item) is Some && member(item, "metafile"@) == Some(Tree::Flag(true))
}

/// `is_listed_item` as a predicate.
pub open spec fn listed_item() -> spec_fn(Tree) -> bool {
    |item: Tree| is_listed_item(item)
}

/// The path that an entry names, as a function.
pub open spec fn item_path() -> spec_fn(Tree) -> Seq<char> {
    |item: Tree| path_in(item)->0
}

/// The paths of the files that describe a mod, in the order of the index
/// that holds `items`.
pub open spec fn listed_texts(items: Seq<Tree>) -> Seq<Seq<char>> {
    items.filter(listed_item()).map_values(item_path())
}

/// The paths that are listed of the entries read are those that the index
/// lists.
pub proof fn lemma_listed_paths(entries: Seq<IndexEntry>, items: Seq<Tree>)
    requires
        are_index_readings(entries, items),
    ensures
        texts(listed_paths(entries)) == listed_texts(items),
    decreases entries.len(),
{
    if entries.len() == 0 {
        assert(entries.filter(listed()) =~= Seq::<IndexEntry>::empty()) by {
            reveal(Seq::filter);
        }
        assert(items.filter(listed_item()) =~= Seq::<Tree>::empty()) by {
            reveal(Seq::filter);
        }
        assert(texts(listed_paths(entries)) =~= listed_texts(items));
    } else {
        let front = entries.drop_last();
        let head = items.drop_last();
        let entry = entries.last();
        let item = items.last();
        assert(are_index_readings(front, head)) by {
            assert forall|i: int| 0 <= i < front.len() implies is_index_reading(
                #[trigger] front[i],
                head[i],
            ) by {
                assert(is_index_reading(entries[i], items[i]));
            }
        }
        lemma_listed_paths(front, head);
        assert(entries =~= front.push(entry));
        assert(items =~= head.push(item));
        assert(is_index_reading(entries[entries.len() - 1], items[entries.len() - 1]));
        front.lemma_filter_push(entry, listed());
        head.lemma_filter_push(item, listed_item());
        assert(is_listed(entry) == is_listed_item(item));
        if is_listed(entry) {
            front.filter(listed()).lemma_push_map_commute(path_of(), entry);
            head.filter(listed_item()).lemma_push_map_commute(item_path(), item);
            assert(texts(listed_paths(entries)) =~= texts(listed_paths(front)).push(
                entry.file->0@,
            ));
        }
    }
}

/// What was read of one entry of the index of a pack.
fn read_index_entry(entry: &Value) -> (r: IndexEntry)
    ensures
        is_index_reading(r, toml_tree(*entry)),
{
    IndexEntry {
        file: match toml_member(entry, "file") {
            None => None,
            Some(file) => match file.as_str() {
                None => None,
                Some(path) => Some(path.to_owned()),
            },
        },
        metafile: match toml_member(entry, "metafile") {
            None => None,
            Some(flag) => flag.as_bool(),
        },
    }
}

/// What was read of the index of a pack, which must be a TOML document
/// that holds a list under `files`.
pub fn read_index(text: &str) -> (r: Result<Vec<IndexEntry>, ModpackError>)
    ensures
        match index_items(text@) {
            Ok(items) => r is Ok && are_index_readings(r->Ok_0@, items),
            Err(e) => r == Err::<Vec<IndexEntry>, ModpackError>(e),
        },
{
    let document = match parse_toml(text) {
        Ok(document) => document,
        Err(_) => {
            return Err(ModpackError::Parse);
        },
    };
    let items = match require(read_items(&document, Field::Files.key()), Field::Files) {
        Ok(items) => items,
        Err(e) => {
            return Err(e);
        },
    };
    let mut entries: Vec<IndexEntry> = Vec::new();
    let mut i: usize = 0;
    while i < items.len()
        invariant
            i <= items.len(),
            entries@.len() == i,
            forall|k: int|
                0 <= k < i ==> is_index_reading(#[trigger] entries@[k], toml_tree(items@[k])),
        decreases items.len() - i,
    {
        entries.push(read_index_entry(&items[i]));
        i += 1;
    }
    proof {
        assert(are_index_readings(entries@, toml_trees(items@)));
    }
    Ok(entries)
}

/// The paths of the files that describe the mods of a pack, as its index
/// lists them.
pub fn index_metafiles(text: &str) -> (r: Result<Vec<String>, ModpackError>)
    ensures
        match index_items(text@) {
            Ok(items) => r is Ok && texts(r->Ok_0@) == listed_texts(items),
            Err(e) => r == Err::<Vec<String>, ModpackError>(e),
        },
{
    match read_index(text) {
        Err(e) => Err(e),
        Ok(entries) => {
            let paths = metafile_paths(entries);
            proof {
                lemma_listed_paths(entries@, index_items(text@)->Ok_0);
            }
            Ok(paths)
        },
    }
}

/// `update` is what reading an update section gives that holds `tree`:
/// for each registry, the identifier in its section, where it has one.
pub open spec fn is_update_reading(update: UpdateFields, tree: Tree) -> bool {
    &&& match member(tree, "curseforge"@) {
        None => update.curseforge is None,
        Some(registry) => update.curseforge == Some(
            integer_at(registry, field_key(Field::ProjectId)),
        ),
    }
    &&& match member(tree, "modrinth"@) {
        None => update.modrinth is None,
        Some(registry) => update.modrinth matches Some(id) && text_reading(id) == text_at(
            registry,
            field_key(Field::ModId),
        ),
    }
}

/// `fields` is what reading a file gives that holds `tree`: its update
/// section, its name and side, and the address in its download section.
pub open spec fn is_metafile_reading(fields: MetafileFields, tree: Tree) -> bool {
    &&& match member(tree, "update"@) {
        None => fields.update is None,
        Some(section) => fields.update matches Some(update) && is_update_reading(update, section),
    }
    &&& text_reading(fields.name) == text_at(tree, field_key(Field::Name))
    &&& text_reading(fields.side) == text_at(tree, field_key(Field::Side))
    &&& match member(tree, field_key(Field::Download)) {
        None => fields.download is None,
        Some(section) => fields.download matches Some(address) && text_reading(address)
            == text_at(section, field_key(Field::Url)),
    }
}

/// What was read of a file that describes a mod, which must be a TOML
/// document.
pub fn read_metafile(text: &str) -> (r: Result<MetafileFields, ModpackError>)
    ensures
        match toml_document(text@) {
            None => r == Err::<MetafileFields, ModpackError>(ModpackError::Parse),
            Some(tree) => r is Ok && is_metafile_reading(r->Ok_0, tree),
        },
{
    let document = match parse_toml(text) {
        Ok(document) => document,
        Err(_) => {
            return Err(ModpackError::Parse);
        },
    };
    let update = match toml_member(&document, "update") {
        None => None,
        Some(section) => Some(
            UpdateFields {
                curseforge: match toml_member(section, "curseforge") {
                    None => None,
                    Some(registry) => Some(read_integer(registry, Field::ProjectId.key())),
                },
                modrinth: match toml_member(section, "modrinth") {
                    None => None,
                    Some(registry) => Some(read_text(registry, Field::ModId.key())),
                },
            },
        ),
    };
    let download = match toml_member(&document, Field::Download.key()) {
        None => None,
        Some(section) => Some(read_text(section, Field::Url.key())),
    };
    Ok(
        MetafileFields {
            update,
            name: read_text(&document, Field::Name.key()),
            side: read_text(&document, Field::Side.key()),
            download,
        },
    )
}

/// What comes of adding a file with these fields to a scan that has
/// gathered `before`: its error, with nothing added, or else where its
/// description comes from, with `entry` added, which is what the file adds.
pub open spec fn is_added(
    before: BatchesView,
    after: BatchesView,
    r: Result<Provenance, ModpackError>,
    fields: MetafileFields,
    entry: Entry,
) -> bool {
    match metafile_error(fields) {
        Some(e) => r == Err::<Provenance, ModpackError>(e) && after == before,
        None => r == Ok::<Provenance, ModpackError>(provenance(fields)) && is_entry_of(
            entry,
            fields,
        ) && after == with_entry(before, entry),
    }
}

/// What comes of adding the file with this text to a scan that has
/// gathered `before`: a text that is no TOML document adds nothing and is
/// an error, and any other adds what the reading of it adds.
pub open spec fn is_addition(
    before: BatchesView,
    text: Seq<char>,
    r: Result<Provenance, ModpackError>,
    after: BatchesView,
) -> bool {
    match toml_document(text) {
        None => r == Err::<Provenance, ModpackError>(ModpackError::Parse) && after == before,
        Some(tree) => exists|fields: MetafileFields, entry: Entry|
            #![trigger is_added(before, after, r, fields, entry)]
            is_metafile_reading(fields, tree) && is_added(before, after, r, fields, entry),
    }
}

impl Batches {
    /// Reads the text of one file that describes a mod and adds what the
    /// file adds. The answer says where the description comes from; a file
    /// that is passed over answers `Unrecognized` and adds nothing. A text
    /// that is no TOML document, and a file with something wrong, leave
    /// the scan as it was.
    pub fn add_metafile(&mut self, text: &str) -> (r: Result<Provenance, ModpackError>)
        ensures
            is_addition(old(self)@, text@, r, final(self)@),
            r is Err ==> *final(self) == *old(self),
    {
        let ghost before = self@;
        let fields = match read_metafile(text) {
            Ok(fields) => fields,
            Err(e) => {
                return Err(e);
            },
        };
        let entry = match scan_metafile(fields) {
            Ok(entry) => entry,
            Err(e) => {
                proof {
                    assert(is_added(
                        before,
                        before,
                        Err::<Provenance, ModpackError>(e),
                        fields,
                        Entry::Skipped,
                    ));
                }
                return Err(e);
            },
        };
        let found = match &entry {
            Entry::Curseforge(_) => Provenance::Curseforge,
            Entry::Modrinth(_) => Provenance::Modrinth,
            Entry::Hosted(_) => Provenance::Hosted,
            Entry::Skipped => Provenance::Unrecognized,
        };
        self.add(entry);
        proof {
            assert(is_added(before, self@, Ok::<Provenance, ModpackError>(found), fields, entry));
        }
        Ok(found)
    }
}

/// A scan that has gathered nothing.
pub open spec fn nothing() -> BatchesView {
    BatchesView { mods: Seq::empty(), modrinth_ids: Seq::empty(), curseforge_ids: Seq::empty() }
}

/// The file at place `i` was added without error, which took the scan
/// from the state at place `i` to the next.
pub open spec fn is_step(states: Seq<BatchesView>, files: Seq<Seq<char>>, i: int) -> bool {
    exists|found: Provenance| #[trigger]
        is_addition(states[i], files[i], Ok::<Provenance, ModpackError>(found), states[i + 1])
}

/// `states` are the states of a scan that began with nothing and added
/// the first `n` files without error, one after the other.
pub open spec fn are_steps(states: Seq<BatchesView>, files: Seq<Seq<char>>, n: int) -> bool {
    &&& 0 <= n <= files.len()
    &&& states.len() == n + 1
    &&& states[0] == nothing()
    &&& forall|i: int| 0 <= i < n ==> #[trigger] is_step(states, files, i)
}

/// `r` is what comes of scanning the files with these texts in their
/// order: what the scan has gathered when every file was added, or the
/// error of the first file that could not be added.
pub open spec fn is_scan(files: Seq<Seq<char>>, r: Result<BatchesView, ModpackError>) -> bool {
    match r {
        Ok(batches) => exists|states: Seq<BatchesView>| #[trigger]
            are_steps(states, files, files.len() as int) && states[files.len() as int] == batches,
        Err(e) => exists|states: Seq<BatchesView>, n: int| #[trigger]
            are_steps(states, files, n) && n < files.len() && is_addition(
                states[n],
                files[n],
                Err::<Provenance, ModpackError>(e),
                states[n],
            ),
    }
}

/// What a scan gave, with the lists of what it gathered.
pub open spec fn scan_view(r: Result<Batches, ModpackError>) -> Result<BatchesView, ModpackError> {
    match r {
        Ok(batches) => Ok(batches@),
        Err(e) => Err(e),
    }
}

/// Scans the pack whose files that describe a mod hold these texts, in
/// their order. The first text that is no TOML document, and the first
/// file with something wrong, ends the scan.
pub fn scan_modpack(metafiles: &Vec<String>) -> (r: Result<Batches, ModpackError>)
    ensures
        is_scan(texts(metafiles@), scan_view(r)),
        r matches Ok(batches) ==> forall|k: int|
            0 <= k < batches.mods@.len() ==> is_bare(#[trigger] batches.mods@[k]),
{
    let ghost files = texts(metafiles@);
    let mut batches = Batches::new();
    let ghost mut states: Seq<BatchesView> = seq![batches@];
    let mut i: usize = 0;
    proof {
        assert(batches@.mods =~= nothing().mods);
        assert(batches@.modrinth_ids =~= nothing().modrinth_ids);
        assert(batches@.curseforge_ids =~= nothing().curseforge_ids);
    }
    while i < metafiles.len()
        invariant
            i <= metafiles.len(),
            files == texts(metafiles@),
            are_steps(states, files, i as int),
            states[i as int] == batches@,
            forall|k: int| 0 <= k < batches.mods@.len() ==> is_bare(#[trigger] batches.mods@[k]),
        decreases metafiles.len() - i,
    {
        let ghost before = batches@;
        let r = batches.add_metafile(metafiles[i].as_str());
        proof {
            assert(files[i as int] == metafiles@[i as int]@);
        }
        match r {
            Err(e) => {
                proof {
                    assert(is_addition(
                        states[i as int],
                        files[i as int],
                        Err::<Provenance, ModpackError>(e),
                        states[i as int],
                    ));
                    assert(are_steps(states, files, i as int));
                }
                return Err(e);
            },
            Ok(found) => {
                proof {
                    let done = states;
                    states = states.push(batches@);
                    assert(is_addition(
                        states[i as int],
                        files[i as int],
                        Ok::<Provenance, ModpackError>(found),
                        states[i + 1],
                    ));
                    assert(is_step(states, files, i as int));
                    assert forall|k: int| 0 <= k < i implies #[trigger] is_step(
                        states,
                        files,
                        k,
                    ) by {
                        assert(is_step(done, files, k));
                        let earlier = choose|earlier: Provenance| #[trigger]
                            is_addition(
                                done[k],
                                files[k],
                                Ok::<Provenance, ModpackError>(earlier),
                                done[k + 1],
                            );
                        assert(is_addition(
                            states[k],
                            files[k],
                            Ok::<Provenance, ModpackError>(earlier),
                            states[k + 1],
                        ));
                    }
                    let tree = toml_document(files[i as int])->0;
                    let (fields, entry) = choose|fields: MetafileFields, entry: Entry|
                        #![trigger is_added(before, batches@, r, fields, entry)]
                        is_metafile_reading(fields, tree) && is_added(
                            before,
                            batches@,
                            r,
                            fields,
                            entry,
                        );
                    if entry is Hosted {
                        let record = entry->Hosted_0;
                        assert(record@ == hosted_record(fields));
                        assert(record@.game_versions.len() == record.game_versions@.len());
                        assert(record@.loaders.len() == record.loaders@.len());
                    }
                    assert forall|k: int| 0 <= k < batches.mods@.len() implies is_bare(
                        #[trigger] batches.mods@[k],
                    ) by {
                        if k < before.mods.len() {
                            assert(batches.mods@[k] == before.mods[k]);
                        }
                    }
                }
            },
        }
        i += 1;
    }
    Ok(batches)
}

} // verus!
