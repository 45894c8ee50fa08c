use storyforge::loader::select_scene_files;
use storyforge::validation::validate_campaign_with_separator;
use storyforge::{
    schema_version, validate_campaign, CampaignManifest, ChoiceDefinition, ContentId, Diagnostic, LoadedCampaign,
    SceneDefinition, Severity,
};

fn id(value: &str) -> ContentId {
    ContentId::new(value).unwrap()
}

fn manifest(schema: u32, entry: &str) -> CampaignManifest {
    CampaignManifest {
        id: "academy-demo".to_owned(),
        name: "Academy Demo".to_owned(),
        version: "0.1.0".to_owned(),
        schema_version: schema,
        rules_profile: "standard".to_owned(),
        default_locale: "en".to_owned(),
        entry_scene: id(entry),
        starting_arc: "reconstruction".to_owned(),
    }
}

fn choice(choice_id: &str, target: Option<&str>) -> ChoiceDefinition {
    ChoiceDefinition { id: choice_id.to_owned(), label: format!("Label {choice_id}"), target: target.map(id) }
}

fn scene(scene_id: &str, choices: Vec<ChoiceDefinition>, terminal: bool) -> SceneDefinition {
    SceneDefinition {
        id: id(scene_id),
        title: "Title".to_owned(),
        body: vec!["Paragraph.".to_owned()],
        choices,
        terminal,
    }
}

fn error(code: &'static str, message: &str, path: Option<&str>) -> Diagnostic {
    Diagnostic { severity: Severity::Error, code, message: message.to_owned(), path: path.map(str::to_owned) }
}

#[test]
fn schema_version_is_one() {
    assert_eq!(schema_version(), 1);
}

#[test]
fn a_sound_campaign_has_no_diagnostics() {
    let campaign = LoadedCampaign {
        root: "campaigns/academy-demo".to_owned(),
        manifest: manifest(1, "academy.scene.arrival"),
        scenes: vec![
            scene(
                "academy.scene.arrival",
                vec![choice("ask", Some("academy.scene.gate")), choice("look", Some("academy.scene.gate"))],
                false,
            ),
            scene("academy.scene.gate", vec![choice("rest", None)], true),
        ],
    };
    assert!(validate_campaign(&campaign).is_empty());
    assert!(campaign.scene(&id("academy.scene.gate")).is_some());
    assert!(campaign.scene(&id("academy.scene.missing")).is_none());
}

#[test]
fn scene_lookup_returns_the_first_match() {
    let campaign = LoadedCampaign {
        root: "root".to_owned(),
        manifest: manifest(1, "a.one"),
        scenes: vec![scene("a.one", vec![], true), scene("a.two", vec![], false), scene("a.two", vec![], true)],
    };
    let found = campaign.scene(&id("a.two")).unwrap();
    assert!(!found.terminal);
}

#[test]
fn every_problem_is_reported_in_order() {
    let campaign = LoadedCampaign {
        root: "campaigns/demo".to_owned(),
        manifest: manifest(2, "a.start"),
        scenes: vec![
            scene("a.one", vec![choice("x", None), choice("x", Some("a.nowhere"))], false),
            scene("a.one", vec![], false),
            scene("a.two", vec![choice("y", None)], true),
        ],
    };
    let diagnostics = validate_campaign(&campaign);
    assert_eq!(
        diagnostics,
        vec![
            error("scene.choice-missing-target", "choice `x` in scene `a.one` has no target", None),
            error("scene.duplicate-choice-id", "scene `a.one` repeats choice ID `x`", None),
            error("scene.duplicate-id", "scene ID `a.one` appears 2 times", None),
            error("scene.missing-target", "choice `x` in scene `a.one` targets missing scene `a.nowhere`", None),
            error("scene.no-choices", "nonterminal scene `a.one` has no choices", None),
            error(
                "manifest.missing-entry-scene",
                "entry scene `a.start` does not exist",
                Some("campaigns/demo/campaign.toml"),
            ),
            error(
                "manifest.unsupported-schema",
                "schema version 2 is not supported",
                Some("campaigns/demo/campaign.toml"),
            ),
        ]
    );
}

#[test]
fn manifest_path_joins_the_root() {
    let mut campaign = LoadedCampaign {
        root: "root/".to_owned(),
        manifest: manifest(10, "a.one"),
        scenes: vec![scene("a.one", vec![], true)],
    };
    assert_eq!(
        validate_campaign(&campaign),
        vec![error("manifest.unsupported-schema", "schema version 10 is not supported", Some("root/campaign.toml"))]
    );
    campaign.root = String::new();
    assert_eq!(validate_campaign(&campaign)[0].path.as_deref(), Some("campaign.toml"));
}

#[test]
fn each_duplicate_id_is_reported_once_with_its_count() {
    let campaign = LoadedCampaign {
        root: "r".to_owned(),
        manifest: manifest(1, "a.b"),
        scenes: vec![scene("a.b", vec![], true), scene("a.b", vec![], true), scene("a.b", vec![], true)],
    };
    assert_eq!(
        validate_campaign(&campaign),
        vec![error("scene.duplicate-id", "scene ID `a.b` appears 3 times", None)]
    );
}

#[test]
fn scene_files_are_filtered_and_sorted() {
    let found = vec![
        "scenes/b.ron".to_owned(),
        "scenes/a/z.ron".to_owned(),
        "scenes/readme.md".to_owned(),
        "scenes/.ron".to_owned(),
        "scenes/a-b.ron".to_owned(),
        "scenes/a.ron".to_owned(),
        "scenes/notes.ron.bak".to_owned(),
    ];
    assert_eq!(
        select_scene_files(found, '/'),
        vec![
            "scenes/a/z.ron".to_owned(),
            "scenes/a-b.ron".to_owned(),
            "scenes/a.ron".to_owned(),
            "scenes/b.ron".to_owned(),
        ]
    );
}

#[test]
fn permuted_listings_load_in_the_same_order() {
    let listing = vec!["s/c.ron".to_owned(), "s/a.ron".to_owned(), "s/b/x.ron".to_owned(), "s/z.txt".to_owned()];
    let mut reversed = listing.clone();
    reversed.reverse();
    assert_eq!(select_scene_files(listing, '/'), select_scene_files(reversed, '/'));
}

#[test]
fn reordered_scenes_give_the_same_report() {
    let make = |order: [usize; 3]| {
        let all = [
            ("a.one", vec![choice("x", Some("a.gone"))], false),
            ("a.two", vec![], false),
            ("a.one", vec![choice("y", None), choice("y", None)], false),
        ];
        let scenes = order
            .iter()
            .map(|&i| scene(all[i].0, all[i].1.iter().map(|c| ChoiceDefinition {
                id: c.id.clone(),
                label: c.label.clone(),
                target: c.target.clone(),
            }).collect(), all[i].2))
            .collect();
        LoadedCampaign { root: "r".to_owned(), manifest: manifest(1, "a.two"), scenes }
    };
    let first = validate_campaign(&make([0, 1, 2]));
    let second = validate_campaign(&make([2, 0, 1]));
    assert_eq!(first, second);
    assert_eq!(first.len(), 6);
}

#[test]
fn reordered_choices_give_the_same_report() {
    let build = |reverse: bool| {
        let mut choices = vec![choice("x", None), choice("y", Some("a.gone")), choice("x", Some("a.one"))];
        if reverse {
            choices.reverse();
        }
        LoadedCampaign {
            root: "r".to_owned(),
            manifest: manifest(1, "a.one"),
            scenes: vec![scene("a.one", choices, false)],
        }
    };
    let first = validate_campaign(&build(false));
    assert_eq!(first, validate_campaign(&build(true)));
    assert_eq!(first.len(), 3);
}

#[test]
fn manifest_path_joins_with_a_backslash_where_that_is_the_separator() {
    let mut campaign = LoadedCampaign {
        root: "campaigns\\demo".to_owned(),
        manifest: manifest(2, "a.one"),
        scenes: vec![scene("a.one", vec![], true)],
    };
    let path = |campaign: &LoadedCampaign| validate_campaign_with_separator(campaign, '\\')[0].path.clone();
    assert_eq!(path(&campaign).as_deref(), Some("campaigns\\demo\\campaign.toml"));
    campaign.root = "campaigns/demo/".to_owned();
    assert_eq!(path(&campaign).as_deref(), Some("campaigns/demo/campaign.toml"));
    campaign.root = "campaigns\\".to_owned();
    assert_eq!(path(&campaign).as_deref(), Some("campaigns\\campaign.toml"));
    campaign.root = "C:".to_owned();
    assert_eq!(path(&campaign).as_deref(), Some("C:campaign.toml"));
    campaign.root = "CD".to_owned();
    assert_eq!(path(&campaign).as_deref(), Some("CD\\campaign.toml"));
    campaign.root = String::new();
    assert_eq!(path(&campaign).as_deref(), Some("campaign.toml"));
}

#[test]
fn a_drive_root_gets_a_separator_where_slash_is_the_separator() {
    let campaign = LoadedCampaign {
        root: "C:".to_owned(),
        manifest: manifest(2, "a.one"),
        scenes: vec![scene("a.one", vec![], true)],
    };
    assert_eq!(
        validate_campaign_with_separator(&campaign, '/')[0].path.as_deref(),
        Some("C:/campaign.toml")
    );
}

#[test]
fn validation_joins_on_the_platform_separator() {
    let campaign = LoadedCampaign {
        root: "r".to_owned(),
        manifest: manifest(2, "a.one"),
        scenes: vec![scene("a.one", vec![], true)],
    };
    let expected = format!("r{}campaign.toml", std::path::MAIN_SEPARATOR);
    assert_eq!(validate_campaign(&campaign)[0].path.as_deref(), Some(expected.as_str()));
}

#[test]
fn scene_files_split_on_backslashes_where_that_is_the_separator() {
    let found = vec![
        "scenes\\b.ron".to_owned(),
        "scenes\\a\\z.ron".to_owned(),
        "scenes\\a-b.ron".to_owned(),
        "scenes\\x.ron\\notes.txt".to_owned(),
        "scenes\\.ron".to_owned(),
        "scenes/c.ron".to_owned(),
    ];
    assert_eq!(
        select_scene_files(found.clone(), '\\'),
        vec![
            "scenes\\a\\z.ron".to_owned(),
            "scenes\\a-b.ron".to_owned(),
            "scenes\\b.ron".to_owned(),
            "scenes/c.ron".to_owned(),
        ]
    );
    assert_eq!(
        select_scene_files(found, '/'),
        vec![
            "scenes/c.ron".to_owned(),
            "scenes\\.ron".to_owned(),
            "scenes\\a-b.ron".to_owned(),
            "scenes\\a\\z.ron".to_owned(),
            "scenes\\b.ron".to_owned(),
        ]
    );
}
