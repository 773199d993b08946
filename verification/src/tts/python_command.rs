//! The command line of the Python inference script (`tools/infer_sft.py`):
//! where it runs, its arguments, and the `PATH` and `PYTHONPATH` it gets.
//! Reading the environment, probing the file system and starting the process
//! are left to the caller, which hands the values in.

use vstd::prelude::*;
use crate::textops;
use crate::tts::text::{strategy_name, PromptStrategy};
use crate::tts::TtsError;
use crate::lyrics::util::{decode_utf8_lossy, utf8_lossy};

verus! {

/// A setting given as text: trimmed, or none when blank or missing.
pub open spec fn setting(o: Option<Seq<char>>) -> Option<Seq<char>> {
    match o {
        Some(s) => if textops::trim(s).len() > 0 {
            Some(textops::trim(s))
        } else {
            None
        },
        None => None,
    }
}

/// The view of an optional text.
pub open spec fn opt_text(o: Option<&str>) -> Option<Seq<char>> {
    match o {
        Some(s) => Some(s@),
        None => None,
    }
}

/// A setting given as text, trimmed; none when blank or missing (see `setting`).
pub fn trimmed_setting(o: Option<&str>) -> (r: Option<String>)
    ensures
        match setting(opt_text(o)) {
            Some(t) => r matches Some(x) && x@ == t,
            None => r is None,
        },
{
    match o {
        Some(s) => {
            let t = textops::trim_vec(&textops::chars_of(s));
            if t.len() > 0 {
                Some(textops::string_of(t.as_slice()))
            } else {
                None
            }
        },
        None => None,
    }
}

/// An environment flag is set when its trimmed value is `1`, `true`, `TRUE`,
/// `yes` or `YES`.
pub open spec fn flag_set(v: Option<Seq<char>>) -> bool {
    match setting(v) {
        Some(t) => t == "1"@ || t == "true"@ || t == "TRUE"@ || t == "yes"@ || t == "YES"@,
        None => false,
    }
}

/// Whether an environment flag with this value is set (see `flag_set`).
pub fn env_flag(value: Option<&str>) -> (r: bool)
    ensures
        r == flag_set(opt_text(value)),
{
    match trimmed_setting(value) {
        Some(t) => {
            let v = textops::chars_of(t.as_str());
            textops::eq_vec(&v, &textops::chars_of("1")) || textops::eq_vec(&v, &textops::chars_of("true"))
                || textops::eq_vec(&v, &textops::chars_of("TRUE")) || textops::eq_vec(
                &v,
                &textops::chars_of("yes"),
            ) || textops::eq_vec(&v, &textops::chars_of("YES"))
        },
        None => false,
    }
}

/// The message of a missing working directory.
pub open spec fn missing_workdir_message() -> Seq<char> {
    "missing python workdir: set `pythonWorkdir` or env CHAOS_TTS_PY_WORKDIR"@
}

/// The working directory of the script: the one asked for, else the one of
/// the environment (`CHAOS_TTS_PY_WORKDIR`), each trimmed; an error when
/// both are blank or missing.
pub fn python_workdir(asked: Option<&str>, env_value: Option<&str>) -> (r: Result<String, TtsError>)
    ensures
        match setting(opt_text(asked)) {
            Some(t) => r matches Ok(w) && w@ == t,
            None => match setting(opt_text(env_value)) {
                Some(t) => r matches Ok(w) && w@ == t,
                None => r matches Err(TtsError::InvalidArg(m)) && m@ == missing_workdir_message(),
            },
        },
{
    match trimmed_setting(asked) {
        Some(w) => Ok(w),
        None => match trimmed_setting(env_value) {
            Some(w) => Ok(w),
            None => Err(
                TtsError::InvalidArg(
                    "missing python workdir: set `pythonWorkdir` or env CHAOS_TTS_PY_WORKDIR".to_owned(),
                ),
            ),
        },
    }
}

/// The script to run: the one asked for, else the one of the environment
/// (`CHAOS_TTS_PY_INFER_SFT`), each trimmed, else `tools/infer_sft.py`.
pub fn python_infer_script(asked: Option<&str>, env_value: Option<&str>) -> (r: String)
    ensures
        r@ == match setting(opt_text(asked)) {
            Some(t) => t,
            None => match setting(opt_text(env_value)) {
                Some(t) => t,
                None => "tools/infer_sft.py"@,
            },
        },
{
    match trimmed_setting(asked) {
        Some(s) => s,
        None => match trimmed_setting(env_value) {
            Some(s) => s,
            None => "tools/infer_sft.py".to_owned(),
        },
    }
}

/// The site-packages directory of the virtual environment: the one of the
/// environment (`CHAOS_TTS_PY_VENV_SITE_PACKAGES`), trimmed, else the default
/// one found beside the working directory, if any.
pub fn site_packages(env_value: Option<&str>, found_default: Option<String>) -> (r: Option<String>)
    ensures
        match setting(opt_text(env_value)) {
            Some(t) => r matches Some(x) && x@ == t,
            None => r == found_default,
        },
{
    match trimmed_setting(env_value) {
        Some(s) => Some(s),
        None => found_default,
    }
}

/// What the script is told: texts as given, and the floating-point settings
/// already written out as text.
pub struct PythonArgs {
    pub script: String,
    pub model_dir: String,
    pub spk_id: String,
    pub text: String,
    pub out_dir: String,
    pub llm_ckpt: String,
    pub flow_ckpt: String,
    pub prompt_text: String,
    pub prompt_strategy: PromptStrategy,
    pub guide_sep: String,
    pub speed: String,
    pub seed: u64,
    pub temperature: String,
    pub top_p: String,
    pub top_k: usize,
    pub win_size: usize,
    pub tau_r: String,
    pub text_frontend: bool,
    pub stream: bool,
}

/// The arguments of the script: the script itself, then each option with its
/// value, then `--no-text_frontend` without the text frontend and `--stream`
/// when streaming.
pub open spec fn python_argv_spec(a: PythonArgs) -> Seq<Seq<char>> {
    seq![
        a.script@,
        "--model_dir"@,
        a.model_dir@,
        "--spk_id"@,
        a.spk_id@,
        "--text"@,
        a.text@,
        "--out_dir"@,
        a.out_dir@,
        "--llm_ckpt"@,
        a.llm_ckpt@,
        "--flow_ckpt"@,
        a.flow_ckpt@,
        "--prompt_text"@,
        a.prompt_text@,
        "--prompt_strategy"@,
        strategy_name(a.prompt_strategy),
        "--guide_sep"@,
        a.guide_sep@,
        "--speed"@,
        a.speed@,
        "--seed"@,
        textops::decimal(a.seed as nat),
        "--temperature"@,
        a.temperature@,
        "--top_p"@,
        a.top_p@,
        "--top_k"@,
        textops::decimal(a.top_k as nat),
        "--win_size"@,
        textops::decimal(a.win_size as nat),
        "--tau_r"@,
        a.tau_r@,
    ] + (if a.text_frontend {
        Seq::empty()
    } else {
        seq!["--no-text_frontend"@]
    }) + (if a.stream {
        seq!["--stream"@]
    } else {
        Seq::empty()
    })
}

/// Appends a text.
fn push_text(out: &mut Vec<String>, s: &str)
    ensures
        final(out).deep_view() == old(out).deep_view().push(s@),
{
    let ghost before = out.deep_view();
    out.push(s.to_owned());
    assert(out.deep_view() =~= before.push(s@));
}

/// The decimal digits of `n`.
fn decimal_text(n: u64) -> (r: String)
    ensures
        r@ == textops::decimal(n as nat),
{
    let mut v: Vec<char> = Vec::new();
    textops::push_decimal(&mut v, n);
    assert(v@ =~= textops::decimal(n as nat));
    textops::string_of(v.as_slice())
}

/// The arguments of the script (see `python_argv_spec`).
pub fn python_argv(a: &PythonArgs) -> (r: Vec<String>)
    ensures
        r.deep_view() == python_argv_spec(*a),
{
    let mut v: Vec<String> = Vec::new();
    push_text(&mut v, a.script.as_str());
    push_text(&mut v, "--model_dir");
    push_text(&mut v, a.model_dir.as_str());
    push_text(&mut v, "--spk_id");
    push_text(&mut v, a.spk_id.as_str());
    push_text(&mut v, "--text");
    push_text(&mut v, a.text.as_str());
    push_text(&mut v, "--out_dir");
    push_text(&mut v, a.out_dir.as_str());
    push_text(&mut v, "--llm_ckpt");
    push_text(&mut v, a.llm_ckpt.as_str());
    push_text(&mut v, "--flow_ckpt");
    push_text(&mut v, a.flow_ckpt.as_str());
    push_text(&mut v, "--prompt_text");
    push_text(&mut v, a.prompt_text.as_str());
    push_text(&mut v, "--prompt_strategy");
    push_text(&mut v, a.prompt_strategy.as_str());
    push_text(&mut v, "--guide_sep");
    push_text(&mut v, a.guide_sep.as_str());
    push_text(&mut v, "--speed");
    push_text(&mut v, a.speed.as_str());
    push_text(&mut v, "--seed");
    push_text(&mut v, decimal_text(a.seed).as_str());
    push_text(&mut v, "--temperature");
    push_text(&mut v, a.temperature.as_str());
    push_text(&mut v, "--top_p");
    push_text(&mut v, a.top_p.as_str());
    push_text(&mut v, "--top_k");
    push_text(&mut v, decimal_text(a.top_k as u64).as_str());
    push_text(&mut v, "--win_size");
    push_text(&mut v, decimal_text(a.win_size as u64).as_str());
    push_text(&mut v, "--tau_r");
    push_text(&mut v, a.tau_r.as_str());
    if !a.text_frontend {
        push_text(&mut v, "--no-text_frontend");
    }
    if a.stream {
        push_text(&mut v, "--stream");
    }
    assert(v.deep_view() =~= python_argv_spec(*a));
    v
}

/// The items of a `;`-separated list, the first one continuing `cur`.
pub open spec fn split_semi(s: Seq<char>, cur: Seq<char>) -> Seq<Seq<char>>
    decreases s.len(),
{
    if s.len() == 0 {
        seq![cur]
    } else if s[0] == ';' {
        seq![cur] + split_semi(s.drop_first(), Seq::empty())
    } else {
        split_semi(s.drop_first(), cur.push(s[0]))
    }
}

/// Whether a `;`-separated list holds `p`, ignoring ASCII case.
pub open spec fn listed_ci(list: Seq<char>, p: Seq<char>) -> bool {
    let items = split_semi(list, Seq::empty());
    exists|i: int| 0 <= i < items.len() && textops::lower(#[trigger] items[i]) == textops::lower(p)
}

/// One step of putting a directory in front of a search path: a directory
/// that does not exist, or that the path already lists (ignoring ASCII
/// case), is left out.
pub open spec fn prepend_one(cur: Seq<char>, dir: Seq<char>, there: bool) -> Seq<char> {
    if !there || listed_ci(cur, dir) {
        cur
    } else if cur.len() == 0 {
        dir
    } else {
        dir + ";"@ + cur
    }
}

/// `cur` with the directories put in front, so that they come in their given
/// order: the last is put in front first.
pub open spec fn prepend_dirs(cur: Seq<char>, dirs: Seq<(String, bool)>) -> Seq<char>
    decreases dirs.len(),
{
    if dirs.len() == 0 {
        cur
    } else {
        prepend_dirs(prepend_one(cur, dirs.last().0@, dirs.last().1), dirs.drop_last())
    }
}

/// The items of a `;`-separated list.
fn split_semi_vec(s: &Vec<char>) -> (r: Vec<Vec<char>>)
    ensures
        r@.map_values(|x: Vec<char>| x@) == split_semi(s@, Seq::empty()),
{
    let n = s.len();
    let mut out: Vec<Vec<char>> = Vec::new();
    let mut cur: Vec<char> = Vec::new();
    let mut i: usize = 0;
    assert(s@.subrange(0, n as int) =~= s@);
    assert(out@.map_values(|x: Vec<char>| x@) =~= Seq::<Seq<char>>::empty());
    while i < n
        invariant
            i <= n,
            n == s@.len(),
            out@.map_values(|x: Vec<char>| x@) + split_semi(s@.subrange(i as int, n as int), cur@)
                == split_semi(s@, Seq::empty()),
        decreases n - i,
    {
        let c = s[i];
        assert(s@.subrange(i as int, n as int).drop_first() =~= s@.subrange(i + 1, n as int));
        assert(s@.subrange(i as int, n as int)[0] == c);
        if c == ';' {
            let ghost before = out@.map_values(|x: Vec<char>| x@);
            let ghost rest = split_semi(s@.subrange(i + 1, n as int), Seq::empty());
            let w = cur;
            out.push(w);
            assert(out@.map_values(|x: Vec<char>| x@) =~= before.push(w@));
            assert(before.push(w@) + rest =~= before + (seq![w@] + rest));
            cur = Vec::new();
            assert(cur@ =~= Seq::<char>::empty());
        } else {
            let ghost old_cur = cur@;
            cur.push(c);
            assert(cur@ =~= old_cur.push(c));
        }
        i = i + 1;
    }
    assert(s@.subrange(n as int, n as int) =~= Seq::<char>::empty());
    let ghost before = out@.map_values(|x: Vec<char>| x@);
    let w = cur;
    out.push(w);
    assert(out@.map_values(|x: Vec<char>| x@) =~= before.push(w@));
    assert(before.push(w@) =~= before + seq![w@]);
    out
}

/// `listed_ci` computed.
fn listed_ci_exec(list: &Vec<char>, p: &Vec<char>) -> (r: bool)
    ensures
        r == listed_ci(list@, p@),
{
    let items = split_semi_vec(list);
    let ghost iv = items@.map_values(|x: Vec<char>| x@);
    let lp = textops::lower_vec(p);
    let mut i: usize = 0;
    while i < items.len()
        invariant
            i <= items@.len(),
            iv == items@.map_values(|x: Vec<char>| x@),
            iv == split_semi(list@, Seq::empty()),
            lp@ == textops::lower(p@),
            forall|j: int| 0 <= j < i ==> textops::lower(#[trigger] iv[j]) != textops::lower(p@),
        decreases items@.len() - i,
    {
        let li = textops::lower_vec(&items[i]);
        assert(iv[i as int] == items@[i as int]@);
        if textops::eq_vec(&li, &lp) {
            return true;
        }
        i = i + 1;
    }
    false
}

/// `dir + ";" + cur`.
fn semi_joined(dir: &Vec<char>, cur: &Vec<char>) -> (r: Vec<char>)
    ensures
        r@ == dir@ + ";"@ + cur@,
{
    let mut v = textops::slice_vec(dir, 0, dir.len());
    assert(v@ =~= dir@);
    v.push(';');
    textops::push_all(&mut v, cur);
    proof {
        reveal_strlit(";");
    }
    assert(v@ =~= dir@ + ";"@ + cur@);
    v
}

/// A search path with directories put in front (see `prepend_dirs`); each
/// directory comes with whether it exists.
pub fn prepend_env_path(current: String, dirs: &Vec<(String, bool)>) -> (r: String)
    ensures
        r@ == prepend_dirs(current@, dirs@),
{
    let mut cur = textops::chars_of(current.as_str());
    let mut j: usize = dirs.len();
    assert(dirs@.take(j as int) =~= dirs@);
    while j > 0
        invariant
            j <= dirs@.len(),
            prepend_dirs(current@, dirs@) == prepend_dirs(cur@, dirs@.take(j as int)),
        decreases j,
    {
        let ghost t = dirs@.take(j as int);
        assert(t.drop_last() =~= dirs@.take(j - 1));
        assert(t.last() == dirs@[j - 1]);
        let d = textops::chars_of(dirs[j - 1].0.as_str());
        let there = dirs[j - 1].1;
        let ghost old_cur = cur@;
        assert(prepend_dirs(old_cur, t) == prepend_dirs(prepend_one(old_cur, t.last().0@, t.last().1), t.drop_last()));
        let listed = if there {
            listed_ci_exec(&cur, &d)
        } else {
            false
        };
        if there && !listed {
            if cur.len() == 0 {
                cur = d;
            } else {
                cur = semi_joined(&d, &cur);
            }
        }
        assert(cur@ == prepend_one(old_cur, t.last().0@, t.last().1));
        j = j - 1;
    }
    assert(dirs@.take(0) =~= Seq::<(String, bool)>::empty());
    textops::string_of(cur.as_slice())
}

/// The `PYTHONPATH` of the script: its own directory, the site-packages
/// directory if any, and the `PYTHONPATH` of the environment, trimmed, if not
/// blank, joined by `;`.
pub open spec fn python_path_spec(script_dir: Seq<char>, site: Option<Seq<char>>, env_value: Option<Seq<char>>) -> Seq<char> {
    let a = match site {
        Some(s) => script_dir + ";"@ + s,
        None => script_dir,
    };
    match setting(env_value) {
        Some(e) => a + ";"@ + e,
        None => a,
    }
}

/// The `PYTHONPATH` of the script (see `python_path_spec`).
pub fn python_path(script_dir: &str, site: Option<&str>, env_value: Option<&str>) -> (r: String)
    ensures
        r@ == python_path_spec(script_dir@, opt_text(site), opt_text(env_value)),
{
    let mut v = textops::chars_of(script_dir);
    if let Some(s) = site {
        v = semi_joined(&v, &textops::chars_of(s));
    }
    if let Some(e) = trimmed_setting(env_value) {
        v = semi_joined(&v, &textops::chars_of(e.as_str()));
    }
    textops::string_of(v.as_slice())
}

/// The text of a failed run's exit: the exit code, or `terminated`.
pub open spec fn exit_text(code: Option<i32>) -> Seq<char> {
    match code {
        Some(c) => textops::signed_decimal(c as int),
        None => "terminated"@,
    }
}

/// The detail of a failed run: the trimmed error output, else the trimmed
/// standard output, else a fixed note.
pub open spec fn failure_detail(stderr: Seq<char>, stdout: Seq<char>) -> Seq<char> {
    if textops::trim(stderr).len() > 0 {
        textops::trim(stderr)
    } else if textops::trim(stdout).len() > 0 {
        textops::trim(stdout)
    } else {
        "python subprocess exited without error output"@
    }
}

/// The message of a failed run of the script, given its exit code and its
/// outputs as bytes (read as UTF-8, invalid sequences replaced).
pub fn python_failure_message(code: Option<i32>, stderr: &[u8], stdout: &[u8]) -> (r: String)
    ensures
        r@ == "python subprocess failed (exit="@ + exit_text(code) + "): "@ + failure_detail(
            utf8_lossy(stderr@),
            utf8_lossy(stdout@),
        ),
{
    let mut v = textops::chars_of("python subprocess failed (exit=");
    match code {
        Some(c) => textops::push_signed_decimal(&mut v, c as i64),
        None => textops::push_all(&mut v, &textops::chars_of("terminated")),
    }
    textops::push_all(&mut v, &textops::chars_of("): "));
    let e = textops::trim_vec(&textops::chars_of(decode_utf8_lossy(stderr).as_str()));
    let o = textops::trim_vec(&textops::chars_of(decode_utf8_lossy(stdout).as_str()));
    if e.len() > 0 {
        textops::push_all(&mut v, &e);
    } else if o.len() > 0 {
        textops::push_all(&mut v, &o);
    } else {
        textops::push_all(&mut v, &textops::chars_of("python subprocess exited without error output"));
    }
    assert(v@ =~= "python subprocess failed (exit="@ + exit_text(code) + "): "@ + failure_detail(
        utf8_lossy(stderr@),
        utf8_lossy(stdout@),
    ));
    textops::string_of(v.as_slice())
}

} // verus!