use chaos_core::tts::python_command::{
    env_flag, prepend_env_path, python_argv, python_failure_message, python_infer_script, python_path,
    python_workdir, site_packages, trimmed_setting, PythonArgs,
};
use chaos_core::tts::text::PromptStrategy;
use chaos_core::tts::TtsError;

fn args(text_frontend: bool, stream: bool) -> PythonArgs {
    PythonArgs {
        script: "w/tools/infer_sft.py".into(),
        model_dir: "m".into(),
        spk_id: "s".into(),
        text: "t".into(),
        out_dir: "o".into(),
        llm_ckpt: "l".into(),
        flow_ckpt: "f".into(),
        prompt_text: "p".into(),
        prompt_strategy: PromptStrategy::GuidePrefix,
        guide_sep: "。".into(),
        speed: "1".into(),
        seed: 1986,
        temperature: "1".into(),
        top_p: "0.6".into(),
        top_k: 10,
        win_size: 25,
        tau_r: "0.1".into(),
        text_frontend,
        stream,
    }
}

#[test]
fn argv_lists_every_option() {
    let v = python_argv(&args(true, false));
    assert_eq!(v.len(), 33);
    assert_eq!(v[0], "w/tools/infer_sft.py");
    assert_eq!(&v[15..17], &["--prompt_strategy".to_string(), "guide_prefix".to_string()]);
    assert_eq!(&v[21..23], &["--seed".to_string(), "1986".to_string()]);
    assert_eq!(&v[27..31], &["--top_k".to_string(), "10".to_string(), "--win_size".to_string(), "25".to_string()]);
    let w = python_argv(&args(false, true));
    assert_eq!(&w[33..], &["--no-text_frontend".to_string(), "--stream".to_string()]);
}

#[test]
fn workdir_and_script_choice() {
    assert_eq!(python_workdir(Some(" a "), Some("b")).unwrap(), "a");
    assert_eq!(python_workdir(Some("  "), Some(" b ")).unwrap(), "b");
    match python_workdir(None, Some(" ")) {
        Err(TtsError::InvalidArg(m)) => {
            assert_eq!(m, "missing python workdir: set `pythonWorkdir` or env CHAOS_TTS_PY_WORKDIR")
        }
        other => panic!("unexpected {other:?}"),
    }
    assert_eq!(python_infer_script(None, None), "tools/infer_sft.py");
    assert_eq!(python_infer_script(None, Some("x.py")), "x.py");
    assert_eq!(site_packages(Some(" s "), Some("d".into())), Some("s".to_string()));
    assert_eq!(site_packages(None, Some("d".into())), Some("d".to_string()));
    assert_eq!(trimmed_setting(Some("  ")), None);
}

#[test]
fn env_flags() {
    assert!(env_flag(Some(" yes ")));
    assert!(env_flag(Some("1")));
    assert!(!env_flag(Some("Yes")));
    assert!(!env_flag(None));
}

#[test]
fn path_prepending_keeps_order_and_skips_known() {
    let dirs = vec![
        ("A".to_string(), true),
        ("missing".to_string(), false),
        ("c:\\X".to_string(), true),
        ("B".to_string(), true),
    ];
    assert_eq!(prepend_env_path("C:\\x;y".to_string(), &dirs), "A;B;C:\\x;y");
    assert_eq!(prepend_env_path(String::new(), &dirs), "A;c:\\X;B");
}

#[test]
fn python_path_joins() {
    assert_eq!(python_path("d", Some("s"), Some(" e ")), "d;s;e");
    assert_eq!(python_path("d", None, Some("  ")), "d");
}

#[test]
fn failure_message_prefers_stderr() {
    assert_eq!(
        python_failure_message(Some(2), b" boom \n", b"out"),
        "python subprocess failed (exit=2): boom"
    );
    assert_eq!(python_failure_message(None, b"", b" out "), "python subprocess failed (exit=terminated): out");
    assert_eq!(
        python_failure_message(Some(-1), b"", b""),
        "python subprocess failed (exit=-1): python subprocess exited without error output"
    );
}
