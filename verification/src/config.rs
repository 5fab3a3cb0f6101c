//! The validated domain model.
//!
//! [`Config::from_raw`] turns a raw manifest into a validated one: script
//! names must be non-empty, free of spaces and tabs, and must not start with
//! a dash; two scripts may not share a name; every environment-variable name
//! must be made of ASCII letters, digits, `-` and `_`.  Violations found
//! while walking the script list are collected, one message per script, in
//! the list's order; a name collision or a bad global environment entry is a
//! structural error that stands alone.

use vstd::prelude::*;

use crate::fmt_num::dec_str;
use crate::fmt_num::u64_to_string;
use crate::raw_config::{
    RawCmd, RawCmdView, RawConfig, RawConfigView, RawEnv, RawScript, RawScriptView,
};

verus! {

broadcast use
    vstd::seq::axiom_seq_index_decreases,
    vstd::seq::axiom_seq_subrange_decreases,
    vstd::std_specs::vec::axiom_vec_decreases_to_view,
    vstd::std_specs::vec::axiom_vec_index_decreases;

// ---------------------------------------------------------------------------
// Domain types.
// ---------------------------------------------------------------------------

/// A validated command tree: every leaf is a literal shell command; a
/// `Consecutive` node runs its children one after another, in order.
#[derive(Debug, PartialEq, Eq)]
pub enum Cmd {
    Literal(String),
    Consecutive(Vec<Cmd>),
}

/// The mathematical shape of a [`Cmd`].
pub enum CmdView {
    Literal(Seq<char>),
    Consecutive(Seq<CmdView>),
}

/// The shapes of the commands in `s`, element by element.  The range guard
/// keeps the recursion inside the sequence, where it is decreasing.
pub open spec fn dom_cmd_views(s: Seq<Cmd>) -> Seq<CmdView>
    decreases s,
{
    Seq::new(
        s.len(),
        |i: int|
            if 0 <= i < s.len() {
                cmd_view(s[i])
            } else {
                CmdView::Literal(Seq::empty())
            },
    )
}

/// The shape of one command.
pub open spec fn cmd_view(c: Cmd) -> CmdView
    decreases c,
{
    match c {
        Cmd::Literal(s) => CmdView::Literal(s@),
        Cmd::Consecutive(l) => CmdView::Consecutive(dom_cmd_views(l@)),
    }
}

impl View for Cmd {
    type V = CmdView;

    open spec fn view(&self) -> CmdView {
        cmd_view(*self)
    }
}

/// An ordered list of already-formatted `NAME=value` environment entries.
#[derive(Debug, PartialEq, Eq)]
pub struct Env(pub Vec<String>);

/// The contents of the strings in `s`, element by element.
pub open spec fn strings_view(s: Seq<String>) -> Seq<Seq<char>> {
    Seq::new(s.len(), |i: int| s[i]@)
}

impl View for Env {
    type V = Seq<Seq<char>>;

    open spec fn view(&self) -> Seq<Seq<char>> {
        strings_view(self.0@)
    }
}

/// One validated script: its command tree, its optional working directory,
/// and its formatted local environment entries.
#[derive(Debug, PartialEq, Eq)]
pub struct Script {
    pub cmd: Cmd,
    pub cwd: Option<String>,
    pub env: Env,
}

/// The mathematical shape of a [`Script`].
pub struct ScriptView {
    pub cmd: CmdView,
    pub cwd: Option<Seq<char>>,
    pub env: Seq<Seq<char>>,
}

impl View for Script {
    type V = ScriptView;

    open spec fn view(&self) -> ScriptView {
        ScriptView {
            cmd: self.cmd@,
            cwd: match self.cwd {
                Some(d) => Some(d@),
                None => None,
            },
            env: self.env@,
        }
    }
}

/// The validated manifest: the scripts keyed by their (unique) names, in the
/// order the manifest wrote them, and the formatted global environment.
#[derive(Debug, PartialEq, Eq)]
pub struct Config {
    pub scripts: Vec<(String, Script)>,
    pub config: Env,
}

/// The name/script pairs in `s`, element by element.
pub open spec fn entry_views(s: Seq<(String, Script)>) -> Seq<(Seq<char>, ScriptView)> {
    Seq::new(s.len(), |i: int| (s[i].0@, s[i].1@))
}

/// The mathematical shape of a [`Config`].
pub struct ConfigView {
    pub scripts: Seq<(Seq<char>, ScriptView)>,
    pub config: Seq<Seq<char>>,
}

impl View for Config {
    type V = ConfigView;

    open spec fn view(&self) -> ConfigView {
        ConfigView { scripts: entry_views(self.scripts@), config: self.config@ }
    }
}

/// How validation fails: one structural error (a name collision, or a bad
/// global environment entry), or the collected per-script messages in the
/// manifest's order.
#[derive(Debug, PartialEq, Eq)]
pub enum ValidationError {
    Single(String),
    Scripts(Vec<String>),
}

/// The mathematical shape of a [`ValidationError`].
pub enum ValidationErrorView {
    Single(Seq<char>),
    Scripts(Seq<Seq<char>>),
}

impl View for ValidationError {
    type V = ValidationErrorView;

    open spec fn view(&self) -> ValidationErrorView {
        match self {
            ValidationError::Single(m) => ValidationErrorView::Single(m@),
            ValidationError::Scripts(ms) => ValidationErrorView::Scripts(strings_view(ms@)),
        }
    }
}

// ---------------------------------------------------------------------------
// Name validation.
// ---------------------------------------------------------------------------

/// A legal script name: non-empty, no space or tab, no leading dash.
pub open spec fn valid_name(s: Seq<char>) -> bool {
    &&& s.len() > 0
    &&& s[0] != '-'
    &&& forall|i: int| 0 <= i < s.len() ==> s[i] != ' ' && s[i] != '\t'
}

/// The message for an illegal name, picked in a fixed priority order:
/// emptiness first, then a forbidden character, then a leading dash.
pub open spec fn name_err_msg(s: Seq<char>) -> Seq<char> {
    if s.len() == 0 {
        "script name cannot be empty"@
    } else if exists|i: int| 0 <= i < s.len() && (s[i] == ' ' || s[i] == '\t') {
        "script name cannot contain tabs or spaces"@
    } else {
        "script name cannot start with -"@
    }
}

/// Checks a script name and hands it back unchanged when it is legal.
#[verifier::loop_isolation(false)]
pub fn name_from_raw(raw: &String) -> (r: Result<String, String>)
    ensures
        valid_name(raw@) ==> (r matches Ok(n) && n@ == raw@),
        !valid_name(raw@) ==> (r matches Err(m) && m@ == name_err_msg(raw@)),
{
    let s = raw.as_str();
    let n = s.unicode_len();
    if n == 0 {
        return Err(String::from_str("script name cannot be empty"));
    }
    let mut i: usize = 0;
    while i < n
        invariant
            i <= n,
            forall|j: int| 0 <= j < i ==> raw@[j] != ' ' && raw@[j] != '\t',
        decreases n - i,
    {
        let c = s.get_char(i);
        if c == ' ' || c == '\t' {
            return Err(String::from_str("script name cannot contain tabs or spaces"));
        }
        i = i + 1;
    }
    if s.get_char(0) == '-' {
        return Err(String::from_str("script name cannot start with -"));
    }
    Ok(raw.clone())
}

// ---------------------------------------------------------------------------
// Environment validation.
// ---------------------------------------------------------------------------

/// A character allowed in an environment-variable name: an ASCII letter, a
/// digit, `-` or `_`.
pub open spec fn env_key_char_ok(c: char) -> bool {
    ||| 48 <= c as u32 <= 57
    ||| 65 <= c as u32 <= 90
    ||| 97 <= c as u32 <= 122
    ||| c == '-'
    ||| c == '_'
}

/// A legal environment-variable name: one or more allowed characters.
pub open spec fn valid_env_key(k: Seq<char>) -> bool {
    k.len() > 0 && forall|i: int| 0 <= i < k.len() ==> env_key_char_ok(k[i])
}

/// The message for an illegal environment-variable name, citing the name.
pub open spec fn invalid_env_msg(k: Seq<char>) -> Seq<char> {
    "invalid env variable name \""@ + k + "\""@
}

/// One formatted environment entry.
pub open spec fn env_entry_str(k: Seq<char>, v: Seq<char>) -> Seq<char> {
    k + "="@ + v
}

/// Formats an environment map entry by entry, in order; the first illegal
/// name fails the whole map with a message citing it.
pub open spec fn env_from_pairs(ps: Seq<(Seq<char>, Seq<char>)>) -> Result<
    Seq<Seq<char>>,
    Seq<char>,
>
    decreases ps.len(),
{
    if ps.len() == 0 {
        Ok(Seq::empty())
    } else if !valid_env_key(ps[0].0) {
        Err(invalid_env_msg(ps[0].0))
    } else {
        match env_from_pairs(ps.drop_first()) {
            Ok(rest) => Ok(seq![env_entry_str(ps[0].0, ps[0].1)] + rest),
            Err(m) => Err(m),
        }
    }
}

/// The pairs of an optional raw environment; a missing table is empty.
pub open spec fn opt_raw_env_pairs(o: Option<RawEnv>) -> Seq<(Seq<char>, Seq<char>)> {
    match o {
        Some(e) => e@,
        None => Seq::empty(),
    }
}

/// Decides [`valid_env_key`] for a name.
#[verifier::loop_isolation(false)]
fn check_env_key(k: &str) -> (b: bool)
    ensures
        b == valid_env_key(k@),
{
    let n = k.unicode_len();
    if n == 0 {
        return false;
    }
    let mut i: usize = 0;
    while i < n
        invariant
            i <= n,
            forall|j: int| 0 <= j < i ==> env_key_char_ok(k@[j]),
        decreases n - i,
    {
        let c = k.get_char(i);
        let u = c as u32;
        if !((48 <= u && u <= 57) || (65 <= u && u <= 90) || (97 <= u && u <= 122) || c == '-' || c
            == '_') {
            return false;
        }
        i = i + 1;
    }
    true
}

impl Env {
    /// Formats and checks an optional raw environment map.
    #[verifier::loop_isolation(false)]
    pub fn from_raw(raw: &Option<RawEnv>) -> (r: Result<Env, String>)
        ensures
            env_from_pairs(opt_raw_env_pairs(*raw)) matches Ok(es) ==> r matches Ok(env) && env@
                == es,
            env_from_pairs(opt_raw_env_pairs(*raw)) matches Err(m) ==> r matches Err(e) && e@ == m,
    {
        match raw {
            None => {
                let out: Vec<String> = Vec::new();
                proof {
                    assert(strings_view(out@) =~= Seq::<Seq<char>>::empty());
                }
                Ok(Env(out))
            },
            Some(rawenv) => {
                let ghost ps = rawenv@;
                let mut out: Vec<String> = Vec::new();
                let mut i: usize = 0;
                proof {
                    assert(ps.skip(0) =~= ps);
                    let whole = env_from_pairs(ps);
                    if whole is Ok {
                        assert(strings_view(out@) + whole->Ok_0 =~= whole->Ok_0);
                    }
                }
                while i < rawenv.0.len()
                    invariant
                        i <= rawenv.0@.len(),
                        env_from_pairs(ps) == (match env_from_pairs(ps.skip(i as int)) {
                            Ok(rest) => Ok::<_, Seq<char>>(strings_view(out@) + rest),
                            Err(m) => Err(m),
                        }),
                    decreases rawenv.0@.len() - i,
                {
                    proof {
                        assert(ps.skip(i as int)[0] == ps[i as int]);
                        assert(ps.skip(i as int).drop_first() =~= ps.skip(i as int + 1));
                    }
                    let k = &rawenv.0[i].0;
                    if check_env_key(k.as_str()) {
                        let entry = k.clone().concat("=").concat(rawenv.0[i].1.as_str());
                        let ghost prev = out@;
                        out.push(entry);
                        proof {
                            assert(strings_view(out@) =~= strings_view(prev).push(
                                env_entry_str(ps[i as int].0, ps[i as int].1),
                            ));
                            let tail = env_from_pairs(ps.skip(i as int + 1));
                            if tail is Ok {
                                let rest = tail->Ok_0;
                                assert(strings_view(prev) + (seq![
                                    env_entry_str(ps[i as int].0, ps[i as int].1),
                                ] + rest) =~= strings_view(out@) + rest);
                            }
                        }
                        i = i + 1;
                    } else {
                        return Err(
                            String::from_str("invalid env variable name \"").concat(
                                k.as_str(),
                            ).concat("\""),
                        );
                    }
                }
                proof {
                    assert(ps.skip(i as int) =~= Seq::<(Seq<char>, Seq<char>)>::empty());
                    assert(strings_view(out@) + Seq::<Seq<char>>::empty() =~= strings_view(out@));
                }
                Ok(Env(out))
            },
        }
    }
}

// ---------------------------------------------------------------------------
// Command rebuild.
// ---------------------------------------------------------------------------

/// The validated command tree of a raw one: the same shape, leaf for leaf.
pub open spec fn cmd_of_raw(r: RawCmdView) -> CmdView
    decreases r,
{
    match r {
        RawCmdView::Literal(s) => CmdView::Literal(s),
        RawCmdView::List(l) => CmdView::Consecutive(cmds_of_raw(l)),
    }
}

/// [`cmd_of_raw`], element by element.  The range guard keeps the recursion
/// inside the sequence, where it is decreasing.
pub open spec fn cmds_of_raw(l: Seq<RawCmdView>) -> Seq<CmdView>
    decreases l,
{
    Seq::new(
        l.len(),
        |i: int|
            if 0 <= i < l.len() {
                cmd_of_raw(l[i])
            } else {
                CmdView::Literal(Seq::empty())
            },
    )
}

impl Cmd {
    /// Rebuilds a raw command tree.  Rebuilding preserves the tree's shape
    /// exactly and never fails.
    #[verifier::loop_isolation(false)]
    pub fn from_raw(raw: &RawCmd) -> (r: Result<Cmd, String>)
        ensures
            r matches Ok(c) && c@ == cmd_of_raw(raw@),
        decreases *raw,
    {
        match raw {
            RawCmd::Literal(s) => Ok(Cmd::Literal(s.clone())),
            RawCmd::List(l) => {
                let ghost lv = crate::raw_config::cmd_views(l@);
                let mut out: Vec<Cmd> = Vec::new();
                let mut i: usize = 0;
                while i < l.len()
                    invariant
                        i <= l@.len(),
                        dom_cmd_views(out@) =~= cmds_of_raw(lv).take(i as int),
                    decreases l@.len() - i,
                {
                    match Cmd::from_raw(&l[i]) {
                        Ok(c) => {
                            let ghost prev = out@;
                            out.push(c);
                            proof {
                                assert(dom_cmd_views(out@) =~= dom_cmd_views(prev).push(c@));
                                assert(cmds_of_raw(lv).take(i as int + 1) =~= cmds_of_raw(
                                    lv,
                                ).take(i as int).push(cmd_of_raw(lv[i as int])));
                            }
                            i = i + 1;
                        },
                        Err(m) => {
                            return Err(m);
                        },
                    }
                }
                proof {
                    assert(cmds_of_raw(lv).take(i as int) =~= cmds_of_raw(lv));
                }
                Ok(Cmd::Consecutive(out))
            },
        }
    }
}

// ---------------------------------------------------------------------------
// Script validation.
// ---------------------------------------------------------------------------

/// The pairs of an optional environment shape; a missing table is empty.
pub open spec fn opt_pairs(o: Option<Seq<(Seq<char>, Seq<char>)>>) -> Seq<(Seq<char>, Seq<char>)> {
    match o {
        Some(ps) => ps,
        None => Seq::empty(),
    }
}

/// What validating one raw script yields: the script keyed by its name, or a
/// message paired with the script's name — an empty name where the name
/// itself was the problem, so that the caller attributes the message by
/// position alone.
pub open spec fn script_from_raw_spec(r: RawScriptView) -> Result<
    (Seq<char>, ScriptView),
    (Seq<char>, Seq<char>),
> {
    if !valid_name(r.name) {
        Err((name_err_msg(r.name), Seq::empty()))
    } else {
        match env_from_pairs(opt_pairs(r.env)) {
            Err(m) => Err((m, r.name)),
            Ok(es) => Ok((r.name, ScriptView { cmd: cmd_of_raw(r.cmd), cwd: r.cwd, env: es })),
        }
    }
}

impl Script {
    /// Validates one raw script: its name first, then its command tree
    /// (which cannot fail), then its environment map.
    pub fn from_raw(raw: &RawScript) -> (r: Result<(String, Script), (String, String)>)
        ensures
            script_from_raw_spec(raw@) matches Ok(p) ==> (r matches Ok(q) && q.0@ == p.0 && q.1@
                == p.1),
            script_from_raw_spec(raw@) matches Err(e) ==> (r matches Err(f) && f.0@ == e.0 && f.1@
                == e.1),
    {
        let name = match name_from_raw(&raw.name) {
            Ok(n) => n,
            Err(m) => {
                return Err((m, String::new()));
            },
        };
        let cmd = match Cmd::from_raw(&raw.cmd) {
            Ok(c) => c,
            Err(m) => {
                return Err((m, name));
            },
        };
        let cwd = match &raw.cwd {
            Some(d) => Some(d.clone()),
            None => None,
        };
        let env = match Env::from_raw(&raw.env) {
            Ok(e) => e,
            Err(m) => {
                return Err((m, name));
            },
        };
        Ok((name, Script { cmd, cwd, env }))
    }
}

// ---------------------------------------------------------------------------
// Whole-manifest validation.
// ---------------------------------------------------------------------------

/// Whether `entries` already holds a script named `n`.
pub open spec fn has_name(entries: Seq<(Seq<char>, ScriptView)>, n: Seq<char>) -> bool {
    exists|i: int| 0 <= i < entries.len() && entries[i].0 == n
}

/// The message attributed to one failed script: by position and name where
/// the name was resolved, by position alone where it was not.
pub open spec fn script_err_msg(idx: nat, name: Seq<char>, m: Seq<char>) -> Seq<char> {
    if name.len() == 0 {
        "script "@ + dec_str(idx) + ": "@ + m
    } else {
        "script "@ + dec_str(idx) + ":"@ + name + " : "@ + m
    }
}

/// The message for a name shared by two scripts.
pub open spec fn collision_msg(name: Seq<char>) -> Seq<char> {
    "2 scripts have the same name \""@ + name + "\""@
}

/// The message for a bad global environment entry.
pub open spec fn global_env_msg(m: Seq<char>) -> Seq<char> {
    "config : "@ + m
}

/// The state of the walk over the script list: collecting scripts and
/// messages, or halted by a name collision.
pub enum FoldState {
    Running(Seq<(Seq<char>, ScriptView)>, Seq<Seq<char>>),
    Halted(Seq<char>),
}

/// One step of the walk: a valid script joins the collected entries unless
/// its name is already taken, which halts the walk; a failed script adds its
/// message.
pub open spec fn fold_step(st: FoldState, s: RawScriptView, idx: nat) -> FoldState {
    match st {
        FoldState::Halted(m) => FoldState::Halted(m),
        FoldState::Running(entries, errs) => match script_from_raw_spec(s) {
            Ok(p) => if has_name(entries, p.0) {
                FoldState::Halted(collision_msg(p.0))
            } else {
                FoldState::Running(entries.push(p), errs)
            },
            Err(e) => FoldState::Running(entries, errs.push(script_err_msg(idx, e.1, e.0))),
        },
    }
}

/// The state of the walk after the first `i` scripts.
pub open spec fn fold_scripts(ss: Seq<RawScriptView>, i: int) -> FoldState
    decreases i,
{
    if i <= 0 {
        FoldState::Running(Seq::empty(), Seq::empty())
    } else {
        fold_step(fold_scripts(ss, i - 1), ss[i - 1], (i - 1) as nat)
    }
}

/// Once the walk has halted, every later state is the same halt.
pub proof fn lemma_fold_halted(ss: Seq<RawScriptView>, i: int, j: int)
    requires
        0 <= i <= j,
        fold_scripts(ss, i) is Halted,
    ensures
        fold_scripts(ss, j) == fold_scripts(ss, i),
    decreases j - i,
{
    if j > i {
        lemma_fold_halted(ss, i, j - 1);
    }
}

/// What validating a whole raw manifest yields.
pub open spec fn validate_spec(r: RawConfigView) -> Result<ConfigView, ValidationErrorView> {
    match fold_scripts(r.scripts, r.scripts.len() as int) {
        FoldState::Halted(m) => Err(ValidationErrorView::Single(m)),
        FoldState::Running(entries, errs) => if errs.len() > 0 {
            Err(ValidationErrorView::Scripts(errs))
        } else {
            match env_from_pairs(opt_pairs(r.config)) {
                Ok(es) => Ok(ConfigView { scripts: entries, config: es }),
                Err(m) => Err(ValidationErrorView::Single(global_env_msg(m))),
            }
        },
    }
}

/// Whether `entries` holds a script named `n`.
#[verifier::loop_isolation(false)]
fn contains_name(entries: &Vec<(String, Script)>, n: &String) -> (b: bool)
    ensures
        b == has_name(entry_views(entries@), n@),
{
    let mut j: usize = 0;
    while j < entries.len()
        invariant
            j <= entries@.len(),
            forall|k: int| 0 <= k < j ==> entry_views(entries@)[k].0 != n@,
        decreases entries@.len() - j,
    {
        if entries[j].0 == *n {
            proof {
                assert(entry_views(entries@)[j as int].0 == n@);
            }
            return true;
        }
        j = j + 1;
    }
    false
}

impl Config {
    /// Validates a raw manifest.  Per-script violations are collected, one
    /// message per script, in the manifest's order; a name collision halts
    /// the walk at once, and a bad global environment entry stands alone.
    #[verifier::loop_isolation(false)]
    pub fn from_raw(raw: &RawConfig) -> (r: Result<Config, ValidationError>)
        ensures
            validate_spec(raw@) matches Ok(c) ==> (r matches Ok(cfg) && cfg@ == c),
            validate_spec(raw@) matches Err(e) ==> (r matches Err(err) && err@ == e),
    {
        let ghost ss = raw@.scripts;
        let mut entries: Vec<(String, Script)> = Vec::new();
        let mut errs: Vec<String> = Vec::new();
        let mut i: usize = 0;
        proof {
            assert(entry_views(entries@) =~= Seq::<(Seq<char>, ScriptView)>::empty());
            assert(strings_view(errs@) =~= Seq::<Seq<char>>::empty());
        }
        while i < raw.scripts.len()
            invariant
                i <= raw.scripts@.len(),
                fold_scripts(ss, i as int) == FoldState::Running(
                    entry_views(entries@),
                    strings_view(errs@),
                ),
            decreases raw.scripts@.len() - i,
        {
            match Script::from_raw(&raw.scripts[i]) {
                Ok(p) => {
                    let (name, script) = p;
                    let ghost nv = name@;
                    let ghost sv = script@;
                    if contains_name(&entries, &name) {
                        let msg = String::from_str("2 scripts have the same name \"").concat(
                            name.as_str(),
                        ).concat("\"");
                        proof {
                            assert(fold_scripts(ss, i as int + 1) == FoldState::Halted(
                                collision_msg(nv),
                            ));
                            lemma_fold_halted(ss, i as int + 1, ss.len() as int);
                        }
                        return Err(ValidationError::Single(msg));
                    }
                    let ghost prev = entries@;
                    entries.push((name, script));
                    proof {
                        assert(entry_views(entries@) =~= entry_views(prev).push((nv, sv)));
                    }
                    i = i + 1;
                },
                Err(f) => {
                    let (m, name) = f;
                    let idx_str = u64_to_string(i as u64);
                    let msg = if name.as_str().unicode_len() > 0 {
                        String::from_str("script ").concat(idx_str.as_str()).concat(":").concat(
                            name.as_str(),
                        ).concat(" : ").concat(m.as_str())
                    } else {
                        String::from_str("script ").concat(idx_str.as_str()).concat(": ").concat(
                            m.as_str(),
                        )
                    };
                    let ghost prev = errs@;
                    let ghost mv = msg@;
                    errs.push(msg);
                    proof {
                        assert(strings_view(errs@) =~= strings_view(prev).push(mv));
                    }
                    i = i + 1;
                },
            }
        }
        if errs.len() > 0 {
            return Err(ValidationError::Scripts(errs));
        }
        match Env::from_raw(&raw.config) {
            Ok(env) => {
                proof {
                    assert(opt_pairs(raw@.config) =~= opt_raw_env_pairs(raw.config));
                }
                Ok(Config { scripts: entries, config: env })
            },
            Err(m) => {
                proof {
                    assert(opt_pairs(raw@.config) =~= opt_raw_env_pairs(raw.config));
                }
                Err(ValidationError::Single(String::from_str("config : ").concat(m.as_str())))
            },
        }
    }
}

// ---------------------------------------------------------------------------
// The whole pipeline: parse, then validate.
// ---------------------------------------------------------------------------

/// How reading a manifest text fails: the text could not be parsed or
/// decoded, or the decoded manifest did not validate.
#[derive(Debug, PartialEq, Eq)]
pub enum ConfigError {
    Parse(String),
    Validation(ValidationError),
}

/// The mathematical shape of a [`ConfigError`].
pub enum ConfigErrorView {
    Parse(Seq<char>),
    Validation(ValidationErrorView),
}

impl View for ConfigError {
    type V = ConfigErrorView;

    open spec fn view(&self) -> ConfigErrorView {
        match self {
            ConfigError::Parse(m) => ConfigErrorView::Parse(m@),
            ConfigError::Validation(e) => ConfigErrorView::Validation(e@),
        }
    }
}

/// The script stored under `n`, if any: the first entry with that name,
/// which unique keys make the only one.
pub open spec fn lookup(entries: Seq<(Seq<char>, ScriptView)>, n: Seq<char>) -> Option<ScriptView>
    decreases entries.len(),
{
    if entries.len() == 0 {
        None
    } else if entries[0].0 == n {
        Some(entries[0].1)
    } else {
        lookup(entries.drop_first(), n)
    }
}

impl Config {
    /// Looks a script up by its exact name.
    #[verifier::loop_isolation(false)]
    pub fn get(&self, name: &str) -> (r: Option<&Script>)
        ensures
            r matches Some(s) ==> lookup(self@.scripts, name@) == Some(s@),
            r is None ==> lookup(self@.scripts, name@) is None,
    {
        let owned = String::from_str(name);
        let ghost es = self@.scripts;
        let mut j: usize = 0;
        proof {
            assert(es.skip(0) =~= es);
        }
        while j < self.scripts.len()
            invariant
                j <= self.scripts@.len(),
                lookup(es, name@) == lookup(es.skip(j as int), name@),
            decreases self.scripts@.len() - j,
        {
            proof {
                assert(es.skip(j as int)[0] == es[j as int]);
                assert(es.skip(j as int).drop_first() =~= es.skip(j as int + 1));
            }
            if self.scripts[j].0 == owned {
                return Some(&self.scripts[j].1);
            }
            j = j + 1;
        }
        proof {
            assert(es.skip(j as int) =~= Seq::<(Seq<char>, ScriptView)>::empty());
        }
        None
    }
}

impl Config {
    /// Parses and validates a manifest text in one step.
    pub fn from_manifest_str(text: &str) -> (r: Result<Config, ConfigError>)
        ensures
            match crate::toml_value::toml_doc_of(text@) {
                None => r matches Err(e) && e@ is Parse,
                Some(doc) => match crate::raw_config::dec_config(doc) {
                    Err(m) => r matches Err(e) && e@ == ConfigErrorView::Parse(m),
                    Ok(rawv) => match validate_spec(rawv) {
                        Ok(c) => r matches Ok(cfg) && cfg@ == c,
                        Err(ev) => r matches Err(e) && e@ == ConfigErrorView::Validation(ev),
                    },
                },
            },
    {
        match RawConfig::parse(text) {
            Err(m) => Err(ConfigError::Parse(m)),
            Ok(rawc) => match Config::from_raw(&rawc) {
                Ok(cfg) => Ok(cfg),
                Err(e) => Err(ConfigError::Validation(e)),
            },
        }
    }
}

} // verus!
