use modpack::curseforge::{
    check_mod, get_curseforge_mods, loader_name, normalize_mod, plan_curseforge_lookup, read_mods,
    FileIndexFields, ModFields,
};
use modpack::error::{Field, ModpackError};
use modpack::lookup::Lookup;
use modpack::modrinth::{
    check_project, derive_side, get_modrinth_mods, normalize_project, plan_modrinth_lookup,
    read_projects, support_level, ProjectFields, Support,
};
use modpack::reading::Reading;
use modpack::record::{ModpackInfo, Side};

fn owned(items: &[&str]) -> Vec<String> {
    items.iter().map(|s| s.to_string()).collect()
}

fn found(text: &str) -> Reading<String> {
    Reading::Found(text.to_string())
}

fn found_list(items: &[&str]) -> Reading<Vec<Option<String>>> {
    Reading::Found(items.iter().map(|s| Some(s.to_string())).collect())
}

fn project(client: &str, server: &str) -> ProjectFields {
    ProjectFields {
        title: found("Sodium"),
        slug: found("sodium"),
        client_side: found(client),
        server_side: found(server),
        loaders: found_list(&["quilt", "fabric"]),
        game_versions: found_list(&["1.20.1", "1.19", "abc", "2.0"]),
    }
}

#[test]
fn support_levels_are_read_from_their_words() {
    assert_eq!(support_level("required"), Support::Required);
    assert_eq!(support_level("optional"), Support::Optional);
    assert_eq!(support_level("unsupported"), Support::Unsupported);
    assert_eq!(support_level("unknown"), Support::Other);
    assert_eq!(support_level(""), Support::Other);
    assert_eq!(support_level("Required"), Support::Other);
}

#[test]
fn optional_client_without_server_is_client() {
    assert_eq!(derive_side(Support::Optional, Support::Unsupported), Side::Client);
    assert_eq!(derive_side(Support::Required, Support::Unsupported), Side::Client);
}

#[test]
fn required_server_without_client_is_server() {
    assert_eq!(derive_side(Support::Unsupported, Support::Required), Side::Server);
    assert_eq!(derive_side(Support::Unsupported, Support::Optional), Side::Server);
}

#[test]
fn every_other_pair_is_both() {
    assert_eq!(derive_side(Support::Required, Support::Required), Side::Both);
    assert_eq!(derive_side(Support::Optional, Support::Optional), Side::Both);
    assert_eq!(derive_side(Support::Required, Support::Optional), Side::Both);
    assert_eq!(derive_side(Support::Unsupported, Support::Unsupported), Side::Both);
    assert_eq!(derive_side(Support::Other, Support::Unsupported), Side::Both);
    assert_eq!(derive_side(Support::Unsupported, Support::Other), Side::Both);
    assert_eq!(derive_side(Support::Other, Support::Other), Side::Both);
}

#[test]
fn sides_have_their_words() {
    assert_eq!(Side::Both.label(), "both");
    assert_eq!(Side::Client.label(), "client");
    assert_eq!(Side::Server.label(), "server");
    assert_eq!(Side::Unknown.label(), "unknown");
}

#[test]
fn a_project_becomes_a_record() {
    let record = normalize_project(project("optional", "unsupported")).unwrap();
    assert_eq!(
        record,
        ModpackInfo {
            name: "Sodium".to_string(),
            side: "client".to_string(),
            url: "https://modrinth.com/mod/sodium".to_string(),
            game_versions: owned(&["1.20.1", "1.19"]),
            loaders: owned(&["fabric", "quilt"]),
        }
    );
}

#[test]
fn side_of_a_project_follows_its_support_levels() {
    assert_eq!(normalize_project(project("unsupported", "required")).unwrap().side, "server");
    assert_eq!(normalize_project(project("required", "required")).unwrap().side, "both");
    assert_eq!(normalize_project(project("optional", "unsupported")).unwrap().side, "client");
}

#[test]
fn a_side_that_is_no_text_counts_as_other() {
    let mut fields = project("unsupported", "required");
    fields.server_side = Reading::Mistyped;
    assert_eq!(normalize_project(fields).unwrap().side, "both");
}

#[test]
fn repeated_loaders_of_a_project_stay() {
    let mut fields = project("required", "required");
    fields.loaders = found_list(&["forge", "fabric", "forge"]);
    assert_eq!(normalize_project(fields).unwrap().loaders, owned(&["fabric", "forge", "forge"]));
}

#[test]
fn the_first_wrong_field_of_a_project_is_reported() {
    let mut fields = project("required", "required");
    fields.title = Reading::Absent;
    fields.slug = Reading::Mistyped;
    assert_eq!(normalize_project(fields), Err(ModpackError::Missing(Field::Title)));

    let mut fields = project("required", "required");
    fields.title = Reading::Mistyped;
    assert_eq!(normalize_project(fields), Err(ModpackError::Mistyped(Field::Title)));

    let mut fields = project("required", "required");
    fields.slug = Reading::Absent;
    assert_eq!(normalize_project(fields), Err(ModpackError::Missing(Field::Slug)));

    let mut fields = project("required", "required");
    fields.client_side = Reading::Absent;
    fields.server_side = Reading::Absent;
    assert_eq!(normalize_project(fields), Err(ModpackError::Missing(Field::ClientSide)));

    let mut fields = project("required", "required");
    fields.server_side = Reading::Absent;
    assert_eq!(normalize_project(fields), Err(ModpackError::Missing(Field::ServerSide)));

    let mut fields = project("required", "required");
    fields.loaders = Reading::Absent;
    assert_eq!(normalize_project(fields), Err(ModpackError::Missing(Field::Loaders)));

    let mut fields = project("required", "required");
    fields.loaders = Reading::Found(vec![Some("forge".to_string()), None]);
    assert_eq!(normalize_project(fields), Err(ModpackError::Mistyped(Field::Loaders)));

    let mut fields = project("required", "required");
    fields.game_versions = Reading::Mistyped;
    assert_eq!(normalize_project(fields), Err(ModpackError::Mistyped(Field::GameVersions)));

    let mut fields = project("required", "required");
    fields.game_versions = Reading::Found(vec![None]);
    assert_eq!(normalize_project(fields), Err(ModpackError::Mistyped(Field::GameVersions)));
}

#[test]
fn a_released_version_too_large_to_compare_fails() {
    let mut fields = project("required", "required");
    fields.game_versions = found_list(&["1.20.1", "1.99999999999"]);
    assert_eq!(normalize_project(fields), Err(ModpackError::MalformedVersion));
}

#[test]
fn a_checked_project_holds_its_fields() {
    let checked = check_project(project("optional", "nonsense")).unwrap();
    assert_eq!(checked.title, "Sodium");
    assert_eq!(checked.slug, "sodium");
    assert_eq!(checked.client_side, Support::Optional);
    assert_eq!(checked.server_side, Support::Other);
    assert_eq!(checked.loaders, owned(&["quilt", "fabric"]));
    assert_eq!(checked.game_versions, owned(&["1.20.1", "1.19", "abc", "2.0"]));
    let record = checked.into_record(&vec![false, true, false, true]).unwrap();
    assert_eq!(record.game_versions, owned(&["1.19", "2.0"]));
}

#[test]
fn an_empty_batch_of_projects_asks_nothing() {
    assert_eq!(plan_modrinth_lookup(&Vec::new()), Lookup::Finished(Vec::new()));
}

#[test]
fn a_batch_of_projects_is_one_request() {
    assert_eq!(
        plan_modrinth_lookup(&owned(&["AANobbMI", "P7dR8mSH"])),
        Lookup::Get {
            url: "https://api.modrinth.com/v2/projects?ids=[\"AANobbMI\",\"P7dR8mSH\"]".to_string()
        }
    );
    assert_eq!(
        plan_modrinth_lookup(&owned(&["AANobbMI"])),
        Lookup::Get { url: "https://api.modrinth.com/v2/projects?ids=[\"AANobbMI\"]".to_string() }
    );
}

const PROJECTS: &str = r#"[
  {"title": "Zoomify", "slug": "zoomify", "client_side": "required", "server_side": "unsupported",
   "loaders": ["quilt", "fabric"], "game_versions": ["1.19", "1.20.1", "23w13a", "1.20"]},
  {"title": "Chunky", "slug": "chunky", "client_side": "unsupported", "server_side": "optional",
   "loaders": ["forge"], "game_versions": []},
  {"title": "Lithium", "slug": "lithium", "client_side": null, "server_side": "required",
   "loaders": [], "game_versions": ["1.7.10", "b1.7.3", "2.0"], "extra": 7}
]"#;

#[test]
fn a_response_of_projects_becomes_records() {
    let mods = get_modrinth_mods(PROJECTS).unwrap();
    assert_eq!(
        mods,
        vec![
            ModpackInfo {
                name: "Zoomify".to_string(),
                side: "client".to_string(),
                url: "https://modrinth.com/mod/zoomify".to_string(),
                game_versions: owned(&["1.20.1", "1.20", "1.19"]),
                loaders: owned(&["fabric", "quilt"]),
            },
            ModpackInfo {
                name: "Chunky".to_string(),
                side: "server".to_string(),
                url: "https://modrinth.com/mod/chunky".to_string(),
                game_versions: Vec::new(),
                loaders: owned(&["forge"]),
            },
            ModpackInfo {
                name: "Lithium".to_string(),
                side: "both".to_string(),
                url: "https://modrinth.com/mod/lithium".to_string(),
                game_versions: owned(&["1.7.10"]),
                loaders: Vec::new(),
            },
        ]
    );
}

#[test]
fn fields_of_projects_are_read_as_they_stand() {
    let all = read_projects(r#"[{"title": 3, "slug": "s", "loaders": ["a", 1], "game_versions": {}}]"#)
        .unwrap();
    assert_eq!(
        all,
        vec![ProjectFields {
            title: Reading::Mistyped,
            slug: found("s"),
            client_side: Reading::Absent,
            server_side: Reading::Absent,
            loaders: Reading::Found(vec![Some("a".to_string()), None]),
            game_versions: Reading::Mistyped,
        }]
    );
}

#[test]
fn a_response_that_is_no_list_of_projects_fails() {
    assert_eq!(get_modrinth_mods("not json"), Err(ModpackError::Parse));
    assert_eq!(get_modrinth_mods("{\"data\": []}"), Err(ModpackError::Parse));
    assert_eq!(get_modrinth_mods(""), Err(ModpackError::Parse));
}

#[test]
fn an_empty_response_of_projects_has_no_records() {
    assert_eq!(get_modrinth_mods("[]"), Ok(Vec::new()));
}

#[test]
fn the_first_project_with_an_error_ends_the_run() {
    let body = r#"[
      {"title": "A", "slug": "a", "client_side": "required", "server_side": "required",
       "loaders": [], "game_versions": []},
      {"title": "B", "client_side": "required", "server_side": "required",
       "loaders": [], "game_versions": []},
      {"slug": "c"}
    ]"#;
    assert_eq!(get_modrinth_mods(body), Err(ModpackError::Missing(Field::Slug)));
}

#[test]
fn loader_codes_have_their_names() {
    assert_eq!(loader_name(Some(0)), "any");
    assert_eq!(loader_name(Some(1)), "forge");
    assert_eq!(loader_name(Some(2)), "cauldron");
    assert_eq!(loader_name(Some(3)), "liteloader");
    assert_eq!(loader_name(Some(4)), "fabric");
    assert_eq!(loader_name(Some(5)), "quilt");
    assert_eq!(loader_name(Some(6)), "neoforge");
    assert_eq!(loader_name(Some(7)), "unknown");
    assert_eq!(loader_name(Some(99)), "unknown");
    assert_eq!(loader_name(Some(-1)), "unknown");
    assert_eq!(loader_name(None), "unknown");
}

fn entry(version: &str, loader: Option<Option<i64>>) -> FileIndexFields {
    FileIndexFields { game_version: found(version), mod_loader: loader }
}

fn a_mod(entries: Vec<FileIndexFields>) -> ModFields {
    ModFields {
        name: found("JEI"),
        links: Some(found("https://www.curseforge.com/minecraft/mc-mods/jei")),
        latest_files_indexes: Reading::Found(entries),
    }
}

#[test]
fn loader_codes_collapse_into_an_ascending_set() {
    let fields = a_mod(vec![
        entry("1.20.1", Some(Some(1))),
        entry("1.20.1", Some(Some(4))),
        entry("1.19.2", Some(Some(4))),
        entry("1.19.2", Some(Some(99))),
    ]);
    let record = normalize_mod(fields).unwrap();
    assert_eq!(record.loaders, owned(&["fabric", "forge", "unknown"]));
    assert_eq!(record.game_versions, owned(&["1.20.1", "1.19.2"]));
}

#[test]
fn an_entry_without_a_loader_adds_none() {
    let fields = a_mod(vec![entry("1.20.1", None), entry("1.19", Some(None)), entry("1.18", None)]);
    let record = normalize_mod(fields).unwrap();
    assert_eq!(record.loaders, owned(&["unknown"]));
    let record = normalize_mod(a_mod(vec![entry("1.20.1", None)])).unwrap();
    assert_eq!(record.loaders, Vec::<String>::new());
}

#[test]
fn a_mod_becomes_a_record_of_unknown_side() {
    let record = normalize_mod(a_mod(vec![entry("1.12.2", Some(Some(1)))])).unwrap();
    assert_eq!(
        record,
        ModpackInfo {
            name: "JEI".to_string(),
            side: "unknown".to_string(),
            url: "https://www.curseforge.com/minecraft/mc-mods/jei".to_string(),
            game_versions: owned(&["1.12.2"]),
            loaders: owned(&["forge"]),
        }
    );
}

#[test]
fn versions_of_a_mod_are_not_filtered_by_the_pattern() {
    let fields = a_mod(vec![entry("1.20.1", None), entry("2.0", None), entry("1.20.1", None)]);
    assert_eq!(normalize_mod(fields).unwrap().game_versions, owned(&["1.20.1", "2.0"]));
}

#[test]
fn versions_of_equal_rank_stand_in_ascending_order() {
    let fields = a_mod(vec![entry("1.20.0", None), entry("1.20", None), entry("1.21", None)]);
    assert_eq!(normalize_mod(fields).unwrap().game_versions, owned(&["1.21", "1.20", "1.20.0"]));
}

#[test]
fn a_malformed_version_among_others_fails_the_mod() {
    let fields = a_mod(vec![entry("1.20.1", None), entry("1.14-Snapshot", None)]);
    assert_eq!(normalize_mod(fields), Err(ModpackError::MalformedVersion));
    let fields = a_mod(vec![entry("1.14-Snapshot", None), entry("1.14-Snapshot", None)]);
    assert_eq!(normalize_mod(fields).unwrap().game_versions, owned(&["1.14-Snapshot"]));
}

#[test]
fn a_mod_without_entries_has_no_versions() {
    let record = normalize_mod(a_mod(Vec::new())).unwrap();
    assert_eq!(record.game_versions, Vec::<String>::new());
    assert_eq!(record.loaders, Vec::<String>::new());
}

#[test]
fn the_first_wrong_field_of_a_mod_is_reported() {
    let mut fields = a_mod(Vec::new());
    fields.name = Reading::Absent;
    fields.links = None;
    assert_eq!(normalize_mod(fields), Err(ModpackError::Missing(Field::Name)));

    let mut fields = a_mod(Vec::new());
    fields.name = Reading::Mistyped;
    assert_eq!(normalize_mod(fields), Err(ModpackError::Mistyped(Field::Name)));

    let mut fields = a_mod(Vec::new());
    fields.links = None;
    assert_eq!(normalize_mod(fields), Err(ModpackError::Missing(Field::Links)));

    let mut fields = a_mod(Vec::new());
    fields.links = Some(Reading::Absent);
    assert_eq!(normalize_mod(fields), Err(ModpackError::Missing(Field::WebsiteUrl)));

    let mut fields = a_mod(Vec::new());
    fields.links = Some(Reading::Mistyped);
    assert_eq!(normalize_mod(fields), Err(ModpackError::Mistyped(Field::WebsiteUrl)));

    let mut fields = a_mod(Vec::new());
    fields.latest_files_indexes = Reading::Absent;
    assert_eq!(normalize_mod(fields), Err(ModpackError::Missing(Field::LatestFilesIndexes)));

    let mut fields = a_mod(Vec::new());
    fields.latest_files_indexes = Reading::Mistyped;
    assert_eq!(normalize_mod(fields), Err(ModpackError::Mistyped(Field::LatestFilesIndexes)));

    let fields = a_mod(vec![
        entry("1.20", None),
        FileIndexFields { game_version: Reading::Mistyped, mod_loader: None },
        FileIndexFields { game_version: Reading::Absent, mod_loader: None },
    ]);
    assert_eq!(normalize_mod(fields), Err(ModpackError::Mistyped(Field::GameVersion)));

    let fields = a_mod(vec![
        entry("abc", None),
        entry("def", None),
        FileIndexFields { game_version: Reading::Absent, mod_loader: None },
    ]);
    assert_eq!(normalize_mod(fields), Err(ModpackError::Missing(Field::GameVersion)));
}

#[test]
fn a_checked_mod_holds_its_fields() {
    let checked = check_mod(a_mod(vec![entry("1.20", Some(Some(4))), entry("1.19", None)])).unwrap();
    assert_eq!(checked.name, "JEI");
    assert_eq!(checked.url, "https://www.curseforge.com/minecraft/mc-mods/jei");
    assert_eq!(checked.files.len(), 2);
    assert_eq!(checked.files[0].game_version, "1.20");
    assert_eq!(checked.files[0].mod_loader, Some(Some(4)));
    assert_eq!(checked.files[1].game_version, "1.19");
    assert_eq!(checked.files[1].mod_loader, None);
}

const MODS: &str = r#"{"data": [
  {"name": "Waystones", "links": {"websiteUrl": "https://example.org/waystones", "wikiUrl": null},
   "latestFilesIndexes": [
     {"gameVersion": "1.19.2", "modLoader": 1},
     {"gameVersion": "1.20.1", "modLoader": 4},
     {"gameVersion": "1.20.1", "modLoader": 4},
     {"gameVersion": "1.20.1", "modLoader": 99},
     {"gameVersion": "2.0", "modLoader": null},
     {"gameVersion": "1.20.1"}
   ]},
  {"name": "Balm", "links": {"websiteUrl": "https://example.org/balm"}, "latestFilesIndexes": []}
], "pagination": {}}"#;

#[test]
fn a_response_of_mods_becomes_records() {
    let mods = get_curseforge_mods(MODS).unwrap();
    assert_eq!(
        mods,
        vec![
            ModpackInfo {
                name: "Waystones".to_string(),
                side: "unknown".to_string(),
                url: "https://example.org/waystones".to_string(),
                game_versions: owned(&["1.20.1", "1.19.2", "2.0"]),
                loaders: owned(&["fabric", "forge", "unknown"]),
            },
            ModpackInfo {
                name: "Balm".to_string(),
                side: "unknown".to_string(),
                url: "https://example.org/balm".to_string(),
                game_versions: Vec::new(),
                loaders: Vec::new(),
            },
        ]
    );
}

#[test]
fn fields_of_mods_are_read_as_they_stand() {
    let all = read_mods(
        r#"{"data": [{"name": "A", "links": 3, "latestFilesIndexes": [{"modLoader": "x"}, {"gameVersion": 1, "modLoader": 2}]}, {}]}"#,
    )
    .unwrap();
    assert_eq!(
        all,
        vec![
            ModFields {
                name: found("A"),
                links: Some(Reading::Absent),
                latest_files_indexes: Reading::Found(vec![
                    FileIndexFields { game_version: Reading::Absent, mod_loader: Some(None) },
                    FileIndexFields { game_version: Reading::Mistyped, mod_loader: Some(Some(2)) },
                ]),
            },
            ModFields { name: Reading::Absent, links: None, latest_files_indexes: Reading::Absent },
        ]
    );
}

#[test]
fn a_response_that_holds_no_list_of_mods_fails() {
    assert_eq!(get_curseforge_mods("<html>"), Err(ModpackError::Parse));
    assert_eq!(get_curseforge_mods("{}"), Err(ModpackError::Missing(Field::Data)));
    assert_eq!(get_curseforge_mods("[]"), Err(ModpackError::Missing(Field::Data)));
    assert_eq!(get_curseforge_mods("{\"data\": {}}"), Err(ModpackError::Mistyped(Field::Data)));
}

#[test]
fn the_first_mod_with_an_error_ends_the_run() {
    let body = r#"{"data": [
      {"name": "A", "links": {"websiteUrl": "u"}, "latestFilesIndexes": []},
      {"name": "B", "links": {}, "latestFilesIndexes": []},
      {"links": {}}
    ]}"#;
    assert_eq!(get_curseforge_mods(body), Err(ModpackError::Missing(Field::WebsiteUrl)));
}

#[test]
fn an_empty_batch_of_mods_asks_nothing() {
    assert_eq!(plan_curseforge_lookup(Vec::new(), "key"), Lookup::Finished(Vec::new()));
}

#[test]
fn a_batch_of_mods_without_a_key_asks_nothing() {
    assert_eq!(plan_curseforge_lookup(vec![238222, 32274], ""), Lookup::Finished(Vec::new()));
    assert_eq!(plan_curseforge_lookup(Vec::new(), ""), Lookup::Finished(Vec::new()));
}

#[test]
fn a_batch_of_mods_is_one_request() {
    assert_eq!(
        plan_curseforge_lookup(vec![238222, 32274], "secret"),
        Lookup::Post {
            url: "https://api.curseforge.com/v1/mods".to_string(),
            api_key: "secret".to_string(),
            mod_ids: vec![238222, 32274],
        }
    );
}
