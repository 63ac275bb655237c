use codex_tool_core::config_override::{config_file_candidates, inherit_if_absent, literal_value, split_one, CliConfigOverrides};
use codex_tool_core::prompt_sequence::{PromptSequenceRunner, PromptSequenceStepToml, UserInput};

#[test]
fn prepend_keeps_own_locations() {
    let mut own = CliConfigOverrides {
        raw_overrides: vec!["model=o3".to_string()],
        config_home: Some("/own/home".to_string()),
        config_file: None,
    };
    let root = CliConfigOverrides {
        raw_overrides: vec!["a=1".to_string(), "b=2".to_string()],
        config_home: Some("/root/home".to_string()),
        config_file: Some("root.toml".to_string()),
    };
    own.prepend_from(&root);
    assert_eq!(own.raw_overrides, vec!["a=1".to_string(), "b=2".to_string(), "model=o3".to_string()]);
    assert_eq!(own.config_home.as_deref(), Some("/own/home"));
    assert_eq!(own.config_file.as_deref(), Some("root.toml"));
}

#[test]
fn inherit_only_fills_gaps() {
    let mut a: Option<u32> = None;
    inherit_if_absent(&mut a, Some(3));
    assert_eq!(a, Some(3));
    inherit_if_absent(&mut a, Some(4));
    assert_eq!(a, Some(3));
}

#[test]
fn overrides_split_at_first_equals() {
    let (k, v) = split_one(" model = \"o3\" ").expect("split");
    assert_eq!(k, "model");
    assert_eq!(v, "\"o3\"");
    let (k, v) = split_one("a.b=x=y").expect("split");
    assert_eq!(k, "a.b");
    assert_eq!(v, "x=y");
    assert_eq!(split_one("novalue").err().unwrap(), "Invalid override (missing '='): novalue");
    assert_eq!(split_one(" =1").err().unwrap(), "Empty key in override:  =1");
    let o = CliConfigOverrides {
        raw_overrides: vec!["x=1".to_string(), "bad".to_string()],
        config_home: None,
        config_file: None,
    };
    assert!(o.split_overrides().is_err());
}

fn step(prompt: &str, name: Option<&str>, attachments: Option<Vec<&str>>) -> PromptSequenceStepToml {
    PromptSequenceStepToml {
        prompt: prompt.to_string(),
        name: name.map(str::to_string),
        attachments: attachments.map(|a| a.into_iter().map(str::to_string).collect()),
    }
}

#[test]
fn sequence_runs_steps_in_order() {
    let steps = vec![
        step("first prompt", Some("Setup"), Some(vec!["img.png", "/abs/b.png"])),
        step("second prompt", None, None),
    ];
    let mut runner = PromptSequenceRunner::from_steps("/seq/dir/prompts.toml".to_string(), steps).expect("runner");
    assert_eq!(runner.source(), "/seq/dir/prompts.toml");
    assert!(runner.has_remaining());
    let e = runner.next_entry().expect("first");
    assert_eq!(e.index, 0);
    assert_eq!(e.total, 2);
    assert_eq!(e.description, "Setup");
    assert_eq!(e.items.len(), 3);
    assert!(matches!(&e.items[0], UserInput::LocalImage { path } if path == "/seq/dir/img.png"));
    assert!(matches!(&e.items[1], UserInput::LocalImage { path } if path == "/abs/b.png"));
    assert!(matches!(&e.items[2], UserInput::Text { text } if text == "first prompt"));
    let e = runner.next_entry().expect("second");
    assert_eq!(e.description, "Step 2");
    assert_eq!(e.items.len(), 1);
    assert!(!runner.has_remaining());
    assert!(runner.next_entry().is_none());
}

#[test]
fn sequence_refuses_empty_and_blank_steps() {
    let err = PromptSequenceRunner::from_steps("p.toml".to_string(), vec![]).err().unwrap();
    assert_eq!(err, "prompt-sequence p.toml does not define any [[steps]] entries");
    let err = PromptSequenceRunner::from_steps("p.toml".to_string(), vec![step("  ", None, None)]).err().unwrap();
    assert_eq!(err, "prompt-sequence step is missing a prompt");
}

#[test]
fn literal_values_lose_their_quotes() {
    assert_eq!(literal_value(" \"o3\" "), "o3");
    assert_eq!(literal_value("'it''"), "it");
    assert_eq!(literal_value("plain"), "plain");
    assert_eq!(literal_value("\"\""), "");
}

#[test]
fn config_file_candidates_in_order() {
    let c = config_file_candidates("local.toml", "/work", Some("/home/u"));
    assert_eq!(c, vec![
        "/work/local.toml".to_string(),
        "/work/.codex/local.toml".to_string(),
        "/home/u/.codex/local.toml".to_string(),
    ]);
    assert_eq!(config_file_candidates("local.toml", "/work", None).len(), 2);
    assert_eq!(config_file_candidates("/etc/c.toml", "/work", None), vec!["/etc/c.toml".to_string()]);
}
