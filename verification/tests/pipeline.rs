use cdlint::config::{Config, Vocabulary};
use cdlint::diagnostic::{Color, Diagnostic, Severity};
use cdlint::pipeline::{analyse, Status};
use cdlint::span::Span;

fn vocabulary() -> Vocabulary {
    Vocabulary {
        enemy_descriptors: vec!["Foo".to_string(), "ED_Grunt".to_string(), "ED_Spider".to_string()],
        pawn_stats: vec!["PST_MovementSpeed".to_string(), "PST_DamageResistance".to_string()],
    }
}

fn run(text: &str) -> Vec<Diagnostic> {
    let analysis = analyse(text, &Config::new(), &vocabulary());
    assert_eq!(analysis.status, Status::Complete, "{:?}", analysis.diagnostics);
    analysis.diagnostics
}

fn messages(diags: &[Diagnostic]) -> Vec<String> {
    diags.iter().map(|d| d.message.clone()).collect()
}

#[test]
fn a_clean_document_has_no_diagnostics() {
    let text = r#"{
        "Name": "Hazard 6",
        "Description": "harder",
        "MaxActiveEnemies": [60, 60, 80, 80],
        "ResupplyCost": 80,
        "EnemyDamageResistance": [1.0, 1.1, 1.2, 1.3],
        "EncounterDifficulty": [{"weight": 1, "range": {"min": 800, "max": 900}}],
        "VeteranNormal": [{"weight": 1, "range": {"min": 0.1, "max": 0.25}}],
        "DisruptiveEnemyPoolCount": {"min": 2, "max": 4},
        "MaxActiveElites": 3,
        "HazardBonus": 1.5,
        "EnemyDescriptors": {
            "ED_Custom": {"Base": "ED_Grunt", "Scale": 1.5, "Elite": true,
                          "PawnStats": {"PST_MovementSpeed": 1.25}}
        },
        "EnemyPool": {"clear": false, "add": ["ED_Custom"], "remove": ["ED_Spider"]},
        "SeasonalEvents": [],
        "EscortMule": {"FriendlyFireModifier": 0.1}
    }"#;
    assert_eq!(messages(&run(text)), Vec::<String>::new());
}

#[test]
fn the_decoded_document_holds_the_values_with_their_spans() {
    let text = r#"{"Name": "N", "MaxActiveElites": 3, "EnemyPool": {"add": ["Foo"]}}"#;
    let analysis = analyse(text, &Config::new(), &vocabulary());
    let cd = analysis.custom_difficulty.expect("the document is decoded");
    assert_eq!(cd.name.val, "N");
    assert_eq!(cd.name.span, Span { lo: 9, hi: 12 });
    assert_eq!(cd.max_active_elites.val, 3);
    assert_eq!(cd.max_active_elites.span, Span { lo: 33, hi: 34 });
    assert_eq!(cd.enemy_pool.val.add.val.len(), 1);
    assert_eq!(cd.enemy_pool.val.add.val[0].val, "Foo");
    assert!(cd.enemy_pool.val.remove.span.is_dummy());
    assert!(cd.description.span.is_dummy());
    assert_eq!(cd.description.val, "");
    assert!(cd.escort_mule.span.is_dummy());
    assert_eq!(cd.escort_mule.val.big_hit_damage_modifier.val.text, "0.5");
}

#[test]
fn one_repeated_top_level_member_gives_one_diagnostic_with_two_labels() {
    let diags = run(r#"{"Name": "a", "HazardBonus": 1, "Name": "b"}"#);
    assert_eq!(diags.len(), 1);
    let d = &diags[0];
    assert_eq!(d.severity, Severity::Error);
    assert_eq!(d.message, "member \"Name\" is defined multiple times");
    assert_eq!(d.labels.len(), 2);
    assert_eq!(d.labels[0].span, Span { lo: 1, hi: 7 });
    assert_eq!(d.labels[0].message.as_deref(), Some("first defined here"));
    assert_eq!(d.labels[1].span, Span { lo: 32, hi: 38 });
    assert_eq!(d.labels[1].message.as_deref(), Some("later redefined here"));
}

#[test]
fn the_first_of_repeated_members_is_kept() {
    let analysis = analyse(r#"{"Name": "a", "Name": "b"}"#, &Config::new(), &vocabulary());
    assert_eq!(analysis.custom_difficulty.unwrap().name.val, "a");
}

#[test]
fn a_negative_number_gives_one_diagnostic_that_cites_it() {
    let diags = run(r#"{"Name": "a", "HazardBonus": -1.5}"#);
    assert_eq!(diags.len(), 1);
    assert_eq!(diags[0].message, "expected a finite number that is not negative, found -1.5");
    assert_eq!(diags[0].labels.len(), 1);
    assert_eq!(diags[0].labels[0].span, Span { lo: 29, hi: 33 });
    assert_eq!(diags[0].labels[0].color, Color::Red);
}

#[test]
fn a_number_that_is_not_finite_gives_one_diagnostic_that_cites_it() {
    let diags = run(r#"{"Name": "a", "SpeedModifier": 1e999}"#);
    assert_eq!(messages(&diags), vec!["expected a finite number that is not negative, found 1e999"]);
}

#[test]
fn a_field_with_a_rejected_value_keeps_its_default() {
    let analysis = analyse(r#"{"Name": "a", "HazardBonus": -1}"#, &Config::new(), &vocabulary());
    let cd = analysis.custom_difficulty.unwrap();
    assert!(cd.hazard_bonus.span.is_dummy());
    assert!(cd.hazard_bonus.val.digits.is_empty());
}

#[test]
fn a_count_must_be_a_whole_number() {
    let diags = run(r#"{"Name": "a", "MaxActiveElites": 1.5, "EliteCooldown": 2.0, "StartingNitra": 1e2}"#);
    assert_eq!(messages(&diags), vec!["expected a whole number that is not negative, found 1.5"]);
}

#[test]
fn a_value_of_the_wrong_kind_names_both_kinds() {
    let diags = run(r#"{"Name": 3, "HazardBonus": "x", "EnemyPool": [], "SeasonalEvents": {}}"#);
    assert_eq!(
        messages(&diags),
        vec![
            "expected object, found array",
            "expected number, found string",
            "expected string, found number",
            "expected array of strings, found object",
            "custom difficulty name is empty",
        ]
    );
}

#[test]
fn members_are_visited_in_the_order_of_their_keys() {
    let diags = run(r#"{"Zeta": 1, "Name": "a", "Alpha": 2, "HazardBonus": -1}"#);
    assert_eq!(
        messages(&diags),
        vec![
            "unknown member \"Alpha\"",
            "expected a finite number that is not negative, found -1",
            "unknown member \"Zeta\"",
        ]
    );
}

#[test]
fn an_unknown_member_gets_a_suggestion_where_one_is_near() {
    let diags = run(r#"{"Name": "a", "HazardBonu": 1, "Qqqqqqqqqqqq": 2}"#);
    assert_eq!(diags.len(), 2);
    assert_eq!(diags[0].message, "unknown member \"HazardBonu\"");
    assert_eq!(diags[0].help.as_deref(), Some("did you mean \"HazardBonus\"?"));
    assert_eq!(diags[1].message, "unknown member \"Qqqqqqqqqqqq\"");
    assert_eq!(diags[1].help, None);
}

#[test]
fn an_array_of_numbers_must_hold_numbers_only() {
    let analysis = analyse(
        r#"{"Name": "a", "ResupplyCost": [1, "x", -2], "StartingNitra": [1, 2]}"#,
        &Config::new(),
        &vocabulary(),
    );
    assert_eq!(
        messages(&analysis.diagnostics),
        vec![
            "expected number, found string",
            "expected a finite number that is not negative, found -2",
        ]
    );
    let cd = analysis.custom_difficulty.unwrap();
    assert!(cd.resupply_cost.span.is_dummy());
    match cd.starting_nitra.val {
        cdlint::custom_difficulty::ArrayOrSingleItem::Array(v) => assert_eq!(v, vec![1, 2]),
        other => panic!("{:?}", other),
    }
}

#[test]
fn nested_objects_are_checked_like_the_document() {
    let diags = run(
        r#"{"Name": "a", "EnemyPool": {"add": ["Foo"], "add": [], "ad": 1, "clear": 3},
            "MinPoolSize": {"min": 0, "mix": 2}}"#,
    );
    assert_eq!(
        messages(&diags),
        vec![
            "member \"add\" is defined multiple times",
            "unknown member \"ad\"",
            "expected bool, found number",
            "unknown member \"mix\"",
        ]
    );
    assert_eq!(diags[1].help.as_deref(), Some("did you mean \"add\"?"));
}

#[test]
fn a_circuit_of_three_is_reported_once_whatever_the_order_of_declaration() {
    let orders = [
        r#"{"Name": "n", "EnemyDescriptors": {"A": {"Base": "B"}, "B": {"Base": "C"}, "C": {"Base": "A"}},
            "EnemyPool": {"add": ["A", "B", "C"]}}"#,
        r#"{"Name": "n", "EnemyDescriptors": {"C": {"Base": "A"}, "A": {"Base": "B"}, "B": {"Base": "C"}},
            "EnemyPool": {"add": ["A", "B", "C"]}}"#,
        r#"{"Name": "n", "EnemyDescriptors": {"B": {"Base": "C"}, "C": {"Base": "A"}, "A": {"Base": "B"}},
            "EnemyPool": {"add": ["A", "B", "C"]}}"#,
    ];
    for text in orders {
        let diags = run(text);
        assert_eq!(
            messages(&diags),
            vec![
                "cycle detected in Enemy Descriptor \"Base\" references",
                "cycle [1]: \"A\" -> \"B\" -> \"C\" -> \"A\"",
            ],
            "{}",
            text
        );
        assert!(diags.iter().all(|d| d.severity == Severity::Error));
    }
}

#[test]
fn a_later_reference_to_a_descriptor_that_names_itself_is_reported() {
    let diags = run(
        r#"{"Name": "n", "EnemyDescriptors": {"A": {"Base": "A"}, "B": {"Base": "A"}},
            "EnemyPool": {"add": ["A", "B"]}}"#,
    );
    assert_eq!(
        messages(&diags),
        vec!["\"A\" is self-referential, but \"B\" references it later, which will cause a crash"]
    );
    assert_eq!(diags[0].labels.len(), 1);
    assert_eq!(diags[0].labels[0].message.as_deref(), Some("\"B\" references \"A\" here"));
    assert_eq!(
        diags[0].help.as_deref(),
        Some("consider moving the self-referential \"A\" to the end of the Enemy Descriptors list")
    );
}

#[test]
fn an_earlier_reference_to_a_descriptor_that_names_itself_is_fine() {
    let diags = run(
        r#"{"Name": "n", "EnemyDescriptors": {"B": {"Base": "A"}, "A": {"Base": "A"}},
            "EnemyPool": {"add": ["A", "B"]}}"#,
    );
    assert_eq!(messages(&diags), Vec::<String>::new());
}

#[test]
fn an_empty_name_and_an_unused_descriptor_that_names_itself() {
    let diags = run(r#"{"Name": "", "EnemyDescriptors": {"X": {"Base": "X"}}}"#);
    assert_eq!(
        messages(&diags),
        vec![
            "custom difficulty name is empty",
            "custom Enemy Descriptor \"X\" is defined but never used",
        ]
    );
    assert!(diags.iter().all(|d| d.severity == Severity::Warning));
    assert_eq!(diags[1].labels[0].message.as_deref(), Some("\"X\" is defined here"));
}

#[test]
fn a_descriptor_that_a_pool_adds_and_removes() {
    let diags = run(r#"{"Name": "n", "EnemyPool": {"add": ["Foo"], "remove": ["Foo"]}}"#);
    assert_eq!(diags.len(), 1);
    let d = &diags[0];
    assert_eq!(d.severity, Severity::Warning);
    assert_eq!(
        d.message,
        "ambiguous Enemy Descriptor addition/removal from enemy pool: \"Foo\" appears in both \"add\" and \"remove\""
    );
    assert_eq!(d.labels.len(), 2);
    assert_eq!(d.labels[0].message.as_deref(), Some("\"Foo\" appears here"));
    assert_eq!(d.labels[1].message.as_deref(), Some("\"Foo\" also appears here"));
    assert_eq!(d.help.as_deref(), Some("consider removing \"Foo\" from one of the array"));
}

#[test]
fn the_scenario_without_a_name_also_warns_of_the_name() {
    let diags = run(r#"{"EnemyPool": {"add": ["Foo"], "remove": ["Foo"]}}"#);
    let ambiguous = diags.iter().filter(|d| d.message.starts_with("ambiguous")).count();
    let undefined = diags.iter().filter(|d| d.message.contains("undefined")).count();
    assert_eq!(ambiguous, 1);
    assert_eq!(undefined, 0);
    assert_eq!(diags.len(), 2);
    assert_eq!(diags[0].message, "custom difficulty name is empty");
}

#[test]
fn undefined_references_are_reported() {
    let diags = run(
        r#"{"Name": "n", "EnemyDescriptors": {"A": {"Base": "Nope"}},
            "CommonEnemies": {"add": ["A", "Gone"], "remove": ["ED_Grunt"]}}"#,
    );
    assert_eq!(
        messages(&diags),
        vec![
            "attempt to reference undefined Enemy Descriptor \"Nope\" as \"Base\"",
            "attempt to reference undefined Enemy Descriptor \"Gone\"",
        ]
    );
}

#[test]
fn extra_descriptors_count_as_defined() {
    let mut config = Config::new();
    config.extra_enemy_descriptors.push("Gone".to_string());
    let analysis = analyse(
        r#"{"Name": "n", "SpecialEnemies": {"add": ["Gone"]}}"#,
        &config,
        &vocabulary(),
    );
    assert!(analysis.diagnostics.is_empty(), "{:?}", analysis.diagnostics);
}

#[test]
fn min_above_max_is_reported_for_every_range() {
    let diags = run(
        r#"{"Name": "n",
            "EncounterDifficulty": [{"weight": 1, "range": {"min": 5, "max": 4}}, {"range": {"min": 1, "max": 1}}],
            "EnemyNormalWaveInterval": [{"range": {"min": 2, "max": 1}}],
            "VeteranLarge": [{"range": {"min": 0.30, "max": 0.3}}, {"range": {"min": 0.31, "max": 0.3}}],
            "MinPoolSize": {"min": 9, "max": 8}}"#,
    );
    assert_eq!(diags.len(), 4);
    for d in &diags {
        assert_eq!(d.severity, Severity::Warning);
        assert_eq!(
            d.message,
            "min > max in this range, which may lead to surprising behavior in Custom Difficulty and in game"
        );
        assert_eq!(d.labels.len(), 2);
        assert_eq!(d.labels[0].color, Color::Yellow);
    }
}

#[test]
fn pawn_stats_must_be_known() {
    let diags = run(
        r#"{"Name": "n", "EnemyDescriptors": {"A": {"Base": "Foo",
            "PawnStats": {"PST_MovementSpeed": 2, "PST_MovementSped": 1, "PST_DamageResistance": "x"}}},
            "EnemyPool": {"add": ["A"]}}"#,
    );
    assert_eq!(
        messages(&diags),
        vec!["expected number, found string", "unknown member \"PST_MovementSped\""]
    );
    assert_eq!(diags[1].help.as_deref(), Some("did you mean \"PST_MovementSpeed\"?"));
}

#[test]
fn a_text_that_is_no_value_is_not_decoded() {
    let analysis = analyse("{\"Name\": ", &Config::new(), &vocabulary());
    assert_eq!(analysis.status, Status::Unparseable);
    assert!(analysis.custom_difficulty.is_none());
    assert_eq!(messages(&analysis.diagnostics), vec!["expected a value"]);
}

#[test]
fn a_root_that_is_no_object_is_not_decoded() {
    let analysis = analyse("[1, 2]", &Config::new(), &vocabulary());
    assert_eq!(analysis.status, Status::UnexpectedRoot);
    assert!(analysis.custom_difficulty.is_none());
    assert!(analysis.diagnostics.is_empty());
}

#[test]
fn the_drawing_comes_when_asked_for() {
    let text = r#"{"Name": "n", "EnemyDescriptors": {"A": {"Base": "Foo"}}, "EnemyPool": {"add": ["A"]}}"#;
    let analysis = analyse(text, &Config::new(), &vocabulary());
    assert!(analysis.drawing.is_none());
    let mut config = Config::new();
    config.generate_cyclic_reference_graph = true;
    let analysis = analyse(text, &config, &vocabulary());
    let drawing = analysis.drawing.expect("the drawing was asked for");
    assert!(drawing.starts_with("digraph {"));
    assert!(drawing.contains("\\\"A\\\""));
    assert!(drawing.contains("3 -> 0"));
}

#[test]
fn the_analysis_of_one_text_is_the_same_twice() {
    let text = r#"{"Name": "", "Oops": 1, "HazardBonus": -1, "EnemyDescriptors": {"A": {"Base": "B"}, "B": {"Base": "A"}},
        "EnemyPool": {"add": ["A", "Nope"], "remove": ["A"]}, "MinPoolSize": {"min": 3, "max": 1}}"#;
    let first = analyse(text, &Config::new(), &vocabulary());
    let second = analyse(text, &Config::new(), &vocabulary());
    assert!(first.diagnostics.len() >= 6);
    assert_eq!(format!("{:?}", first.diagnostics), format!("{:?}", second.diagnostics));
}

#[test]
fn the_document_of_the_defaults_warns_of_its_name_only() {
    let text = r#"{
        "Name": "", "Description": "",
        "MaxActiveCritters": 0, "MaxActiveSwarmers": 0, "MaxActiveEnemies": 0,
        "ResupplyCost": 0, "StartingNitra": 0,
        "ExtraLargeEnemyDamageResistance": 0, "ExtraLargeEnemyDamageResistanceB": 0,
        "ExtraLargeEnemyDamageResistanceC": 0, "ExtraLargeEnemyDamageResistanceD": 0,
        "EnemyDamageResistance": 0, "SmallEnemyDamageResistance": 0,
        "EnemyDamageModifier": 0, "EnemyCountModifier": 0,
        "EncounterDifficulty": [], "StationaryDifficulty": [], "EnemyWaveInterval": [],
        "EnemyNormalWaveInterval": [], "EnemyNormalWaveDifficulty": [],
        "EnemyDiversity": [], "StationaryEnemyDiversity": [],
        "VeteranNormal": [], "VeteranLarge": [],
        "DisruptiveEnemyPoolCount": {"min": 0, "max": 0}, "MinPoolSize": {"min": 0, "max": 0},
        "MaxActiveElites": 0,
        "EnvironmentalDamageModifier": 0, "PointExtractionScalar": 0, "HazardBonus": 0,
        "FriendlyFireModifier": 0, "WaveStartDelayScale": 0, "SpeedModifier": 0,
        "AttackCooldownModifier": 0, "ProjectileSpeedModifier": 0,
        "HealthRegenerationMax": 0, "ReviveHealthRatio": 0,
        "EliteCooldown": 0,
        "EnemyDescriptors": {},
        "EnemyPool": {"clear": false, "add": [], "remove": []},
        "CommonEnemies": {"clear": false, "add": [], "remove": []},
        "DisruptiveEnemies": {"clear": false, "add": [], "remove": []},
        "SpecialEnemies": {"clear": false, "add": [], "remove": []},
        "StationaryEnemies": {"clear": false, "add": [], "remove": []},
        "SeasonalEvents": [],
        "EscortMule": {"FriendlyFireModifier": 0.1, "NeutralDamageModifier": 0.1,
                       "BigHitDamageModifier": 0.5, "BigHitDamageReductionThreshold": 0.0}
    }"#;
    assert_eq!(messages(&run(text)), vec!["custom difficulty name is empty"]);
    assert_eq!(messages(&run("{}")), vec!["custom difficulty name is empty"]);
}

#[test]
fn an_undefined_reference_gets_a_suggestion_where_a_name_is_near() {
    let diags = run(
        r#"{"Name": "n", "EnemyDescriptors": {"ED_Mine": {"Base": "ED_Grunts"}},
            "EnemyPool": {"add": ["ED_Mine", "ED_Mime", "Whatever"]}}"#,
    );
    assert_eq!(diags.len(), 3);
    assert_eq!(diags[0].message, "attempt to reference undefined Enemy Descriptor \"ED_Grunts\" as \"Base\"");
    assert_eq!(diags[0].help.as_deref(), Some("did you mean \"ED_Grunt\"?"));
    assert_eq!(diags[1].message, "attempt to reference undefined Enemy Descriptor \"ED_Mime\"");
    assert_eq!(diags[1].help.as_deref(), Some("did you mean \"ED_Mine\"?"));
    assert_eq!(diags[2].help, None);
}

#[test]
fn undefined_bases_are_reported_in_the_order_of_declaration() {
    let diags = run(
        r#"{"Name": "n", "EnemyDescriptors": {"Zed": {"Base": "NoZ"}, "Abe": {"Base": "NoA"}, "Moe": {"Base": "NoM"}},
            "EnemyPool": {"add": ["Zed", "Abe", "Moe"]}}"#,
    );
    assert_eq!(
        messages(&diags),
        vec![
            "attempt to reference undefined Enemy Descriptor \"NoZ\" as \"Base\"",
            "attempt to reference undefined Enemy Descriptor \"NoA\" as \"Base\"",
            "attempt to reference undefined Enemy Descriptor \"NoM\" as \"Base\"",
        ]
    );
}

#[test]
fn later_references_to_a_descriptor_that_names_itself_come_in_the_order_of_declaration() {
    let diags = run(
        r#"{"Name": "n", "EnemyDescriptors": {"Early": {"Base": "Self"}, "Self": {"Base": "Self"},
            "Zed": {"Base": "Self"}, "Abe": {"Base": "Self"}},
            "EnemyPool": {"add": ["Early", "Self", "Zed", "Abe"]}}"#,
    );
    assert_eq!(
        messages(&diags),
        vec![
            "\"Self\" is self-referential, but \"Zed\" references it later, which will cause a crash",
            "\"Self\" is self-referential, but \"Abe\" references it later, which will cause a crash",
        ]
    );
}

#[test]
fn the_first_pass_gives_one_error_for_a_blank_name() {
    let analysis = analyse(r#"{"Name": "  "}"#, &Config::new(), &vocabulary());
    let cd = analysis.custom_difficulty.expect("the document is decoded");
    let errors = cdlint::late_lints::empty_cd_name::lint_empty_name(&cd);
    assert_eq!(errors.len(), 1);
    assert_eq!(errors[0].severity, Severity::Error);
    assert_eq!(errors[0].message, "the Custom Difficulty has an empty name");
    assert_eq!(errors[0].labels.len(), 1);
    assert_eq!(errors[0].labels[0].span, Span { lo: 9, hi: 13 });
    assert_eq!(errors[0].labels[0].color, Color::Red);

    let analysis = analyse(r#"{"Name": " x "}"#, &Config::new(), &vocabulary());
    let cd = analysis.custom_difficulty.expect("the document is decoded");
    assert!(cdlint::late_lints::empty_cd_name::lint_empty_name(&cd).is_empty());
}

#[test]
fn a_count_that_is_negative_or_not_finite_gives_one_diagnostic() {
    let diags = run(r#"{"Name": "n", "MaxActiveElites": -3}"#);
    assert_eq!(messages(&diags), vec!["expected a whole number that is not negative, found -3"]);
    assert_eq!(diags[0].labels.len(), 1);
    assert_eq!(diags[0].labels[0].span, Span { lo: 33, hi: 35 });
    let diags = run(r#"{"Name": "n", "EliteCooldown": 1e999}"#);
    assert_eq!(messages(&diags), vec!["expected a whole number that is not negative, found 1e999"]);
}
