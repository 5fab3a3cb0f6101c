//! The raw, untyped manifest model.
//!
//! A parsed manifest is first held exactly as written: every script entry
//! keeps its name, its polymorphic command field (a single string or an
//! arbitrarily nested list of strings), its optional working directory and
//! its optional environment table.  Decoding from the TOML value tree is
//! verified against the ghost model of that tree; nesting of command lists
//! is preserved exactly, never flattened.

use vstd::prelude::*;

use crate::toml_value::{
    assoc, parse_toml_text, table_entries, table_entries_of, table_get, toml_doc_of, toml_node,
    value_as_array, value_as_str, value_as_table, TomlNode,
};

verus! {

broadcast use
    vstd::seq::axiom_seq_index_decreases,
    vstd::seq::axiom_seq_subrange_decreases,
    vstd::std_specs::vec::axiom_vec_decreases_to_view,
    vstd::std_specs::vec::axiom_vec_index_decreases;


/// An untyped command expression as written in the manifest: a literal
/// shell-command string, or an ordered list of command expressions.
#[derive(Debug, PartialEq, Eq)]
pub enum RawCmd {
    Literal(String),
    List(Vec<RawCmd>),
}

/// The mathematical shape of a [`RawCmd`].
pub enum RawCmdView {
    Literal(Seq<char>),
    List(Seq<RawCmdView>),
}

/// The shapes of the commands in `s`, element by element.  The range guard
/// keeps the recursion inside the sequence, where it is decreasing.
pub open spec fn cmd_views(s: Seq<RawCmd>) -> Seq<RawCmdView>
    decreases s,
{
    Seq::new(
        s.len(),
        |i: int|
            if 0 <= i < s.len() {
                raw_cmd_view(s[i])
            } else {
                RawCmdView::Literal(Seq::empty())
            },
    )
}

/// The shape of one raw command.
pub open spec fn raw_cmd_view(c: RawCmd) -> RawCmdView
    decreases c,
{
    match c {
        RawCmd::Literal(s) => RawCmdView::Literal(s@),
        RawCmd::List(l) => RawCmdView::List(cmd_views(l@)),
    }
}

impl View for RawCmd {
    type V = RawCmdView;

    open spec fn view(&self) -> RawCmdView {
        raw_cmd_view(*self)
    }
}

/// One script's environment table as written: ordered `(name, value)` pairs.
#[derive(Debug, PartialEq, Eq)]
pub struct RawEnv(pub Vec<(String, String)>);

/// The pairs of strings in `s` as pairs of character sequences.
pub open spec fn pairs_view(s: Seq<(String, String)>) -> Seq<(Seq<char>, Seq<char>)> {
    Seq::new(s.len(), |i: int| (s[i].0@, s[i].1@))
}

impl View for RawEnv {
    type V = Seq<(Seq<char>, Seq<char>)>;

    open spec fn view(&self) -> Seq<(Seq<char>, Seq<char>)> {
        pairs_view(self.0@)
    }
}

/// One manifest entry as written.
#[derive(Debug, PartialEq, Eq)]
pub struct RawScript {
    pub name: String,
    pub cmd: RawCmd,
    pub cwd: Option<String>,
    pub env: Option<RawEnv>,
}

/// The mathematical shape of a [`RawScript`].
pub struct RawScriptView {
    pub name: Seq<char>,
    pub cmd: RawCmdView,
    pub cwd: Option<Seq<char>>,
    pub env: Option<Seq<(Seq<char>, Seq<char>)>>,
}

impl View for RawScript {
    type V = RawScriptView;

    open spec fn view(&self) -> RawScriptView {
        RawScriptView {
            name: self.name@,
            cmd: self.cmd@,
            cwd: match self.cwd {
                Some(d) => Some(d@),
                None => None,
            },
            env: match self.env {
                Some(e) => Some(e@),
                None => None,
            },
        }
    }
}

/// The whole manifest as written: the script entries in order, and the
/// optional global environment table.
#[derive(Debug, PartialEq, Eq)]
pub struct RawConfig {
    pub scripts: Vec<RawScript>,
    pub config: Option<RawEnv>,
}

/// The mathematical shape of a [`RawConfig`].
pub struct RawConfigView {
    pub scripts: Seq<RawScriptView>,
    pub config: Option<Seq<(Seq<char>, Seq<char>)>>,
}

/// The shapes of the scripts in `s`, element by element.
pub open spec fn script_views(s: Seq<RawScript>) -> Seq<RawScriptView> {
    Seq::new(s.len(), |i: int| s[i]@)
}

impl View for RawConfig {
    type V = RawConfigView;

    open spec fn view(&self) -> RawConfigView {
        RawConfigView {
            scripts: script_views(self.scripts@),
            config: match self.config {
                Some(e) => Some(e@),
                None => None,
            },
        }
    }
}

// ---------------------------------------------------------------------------
// What decoding a TOML value tree into the raw model yields.
// ---------------------------------------------------------------------------

/// The message used where a command field is neither a string nor an array.
pub open spec fn cmd_err_msg() -> Seq<char> {
    "cmd must be a string or a list of strings"@
}

/// The message used where an env table holds a non-string value.
pub open spec fn env_value_err_msg() -> Seq<char> {
    "env values must be strings"@
}

/// The message used where a script entry is not a table.
pub open spec fn script_type_err_msg() -> Seq<char> {
    "each scripts entry must be a table"@
}

/// The message used where a script entry has no `name` key.
pub open spec fn missing_name_msg() -> Seq<char> {
    "missing field name"@
}

/// The message used where a script's `name` is not a string.
pub open spec fn name_type_err_msg() -> Seq<char> {
    "name must be a string"@
}

/// The message used where a script entry has no `cmd` key.
pub open spec fn missing_cmd_msg() -> Seq<char> {
    "missing field cmd"@
}

/// The message used where a script's `cwd` is not a string.
pub open spec fn cwd_type_err_msg() -> Seq<char> {
    "cwd must be a string"@
}

/// The message used where an `env` or `config` field is not a table.
pub open spec fn env_type_err_msg() -> Seq<char> {
    "env must be a table of strings"@
}

/// The message used where the document has no `scripts` key.
pub open spec fn missing_scripts_msg() -> Seq<char> {
    "missing field scripts"@
}

/// The message used where `scripts` is not an array.
pub open spec fn scripts_type_err_msg() -> Seq<char> {
    "scripts must be an array of tables"@
}

/// The message used where the document itself is not a table.
pub open spec fn doc_type_err_msg() -> Seq<char> {
    "the manifest must be a table"@
}

/// Decodes one command node: a string is a literal, an array is a list
/// decoded element by element, anything else is refused.
pub open spec fn dec_cmd(n: TomlNode) -> Option<RawCmdView>
    decreases n,
{
    match n {
        TomlNode::Str(s) => Some(RawCmdView::Literal(s)),
        TomlNode::Arr(es) => match dec_cmd_list(es) {
            Some(l) => Some(RawCmdView::List(l)),
            None => None,
        },
        _ => None,
    }
}

/// Decodes the elements of a command list in order; the first refused
/// element refuses the whole list.
pub open spec fn dec_cmd_list(es: Seq<TomlNode>) -> Option<Seq<RawCmdView>>
    decreases es,
{
    if es.len() == 0 {
        Some(Seq::empty())
    } else {
        match dec_cmd(es[0]) {
            None => None,
            Some(c) => match dec_cmd_list(es.drop_first()) {
                None => None,
                Some(rest) => Some(seq![c] + rest),
            },
        }
    }
}

/// Decodes an environment table: every value must be a string; the first
/// offending entry refuses the table.
pub open spec fn dec_env_entries(es: Seq<(Seq<char>, TomlNode)>) -> Result<
    Seq<(Seq<char>, Seq<char>)>,
    Seq<char>,
>
    decreases es.len(),
{
    if es.len() == 0 {
        Ok(Seq::empty())
    } else {
        match es[0].1 {
            TomlNode::Str(v) => match dec_env_entries(es.drop_first()) {
                Ok(rest) => Ok(seq![(es[0].0, v)] + rest),
                Err(m) => Err(m),
            },
            _ => Err(env_value_err_msg()),
        }
    }
}

/// Decodes an optional `cwd` field.
pub open spec fn dec_cwd(o: Option<TomlNode>) -> Result<Option<Seq<char>>, Seq<char>> {
    match o {
        None => Ok(None),
        Some(TomlNode::Str(s)) => Ok(Some(s)),
        Some(_) => Err(cwd_type_err_msg()),
    }
}

/// Decodes an optional environment field (`env` of a script, or the global
/// `config` table).
pub open spec fn dec_env_opt(o: Option<TomlNode>) -> Result<
    Option<Seq<(Seq<char>, Seq<char>)>>,
    Seq<char>,
> {
    match o {
        None => Ok(None),
        Some(TomlNode::Tab(es)) => match dec_env_entries(es) {
            Ok(ps) => Ok(Some(ps)),
            Err(m) => Err(m),
        },
        Some(_) => Err(env_type_err_msg()),
    }
}

/// Decodes one script entry: a table with a string `name`, a command `cmd`,
/// an optional string `cwd` and an optional env table, read in that order.
pub open spec fn dec_script(n: TomlNode) -> Result<RawScriptView, Seq<char>> {
    match n {
        TomlNode::Tab(es) => match assoc(es, "name"@) {
            Some(TomlNode::Str(name)) => match assoc(es, "cmd"@) {
                Some(cn) => match dec_cmd(cn) {
                    Some(cmd) => match dec_cwd(assoc(es, "cwd"@)) {
                        Ok(cwd) => match dec_env_opt(assoc(es, "env"@)) {
                            Ok(env) => Ok(RawScriptView { name, cmd, cwd, env }),
                            Err(m) => Err(m),
                        },
                        Err(m) => Err(m),
                    },
                    None => Err(cmd_err_msg()),
                },
                None => Err(missing_cmd_msg()),
            },
            Some(_) => Err(name_type_err_msg()),
            None => Err(missing_name_msg()),
        },
        _ => Err(script_type_err_msg()),
    }
}

/// Decodes the `scripts` array in order; the first refused entry refuses
/// the manifest.
pub open spec fn dec_scripts(es: Seq<TomlNode>) -> Result<Seq<RawScriptView>, Seq<char>>
    decreases es.len(),
{
    if es.len() == 0 {
        Ok(Seq::empty())
    } else {
        match dec_script(es[0]) {
            Ok(s) => match dec_scripts(es.drop_first()) {
                Ok(rest) => Ok(seq![s] + rest),
                Err(m) => Err(m),
            },
            Err(m) => Err(m),
        }
    }
}

/// Decodes a whole manifest document.
pub open spec fn dec_config(n: TomlNode) -> Result<RawConfigView, Seq<char>> {
    match n {
        TomlNode::Tab(es) => match assoc(es, "scripts"@) {
            Some(TomlNode::Arr(ss)) => match dec_scripts(ss) {
                Ok(scripts) => match dec_env_opt(assoc(es, "config"@)) {
                    Ok(config) => Ok(RawConfigView { scripts, config }),
                    Err(m) => Err(m),
                },
                Err(m) => Err(m),
            },
            Some(_) => Err(scripts_type_err_msg()),
            None => Err(missing_scripts_msg()),
        },
        _ => Err(doc_type_err_msg()),
    }
}

// ---------------------------------------------------------------------------
// The executable decoder.
// ---------------------------------------------------------------------------

/// Decodes one command value.
fn decode_cmd(v: &toml::Value) -> (r: Result<RawCmd, String>)
    ensures
        match dec_cmd(toml_node(*v)) {
            Some(c) => r matches Ok(rc) && rc@ == c,
            None => r matches Err(m) && m@ == cmd_err_msg(),
        },
    decreases toml_node(*v),
{
    match value_as_str(v) {
        Some(s) => Ok(RawCmd::Literal(String::from_str(s))),
        None => match value_as_array(v) {
            Some(arr) => {
                let ghost es = toml_node(*v)->Arr_0;
                let mut out: Vec<RawCmd> = Vec::new();
                let mut i: usize = 0;
                proof {
                    assert(es.skip(0) =~= es);
                    let whole = dec_cmd_list(es);
                    if whole is Some {
                        assert(cmd_views(out@) + whole->Some_0 =~= whole->Some_0);
                    }
                }
                while i < arr.len()
                    invariant
                        i <= arr@.len(),
                        arr@.len() == es.len(),
                        forall|j: int| 0 <= j < es.len() ==> toml_node(arr@[j]) == es[j],
                        toml_node(*v) == TomlNode::Arr(es),
                        dec_cmd_list(es) == (match dec_cmd_list(es.skip(i as int)) {
                            None => None::<Seq<RawCmdView>>,
                            Some(rest) => Some(cmd_views(out@) + rest),
                        }),
                    decreases arr@.len() - i,
                {
                    let rc = decode_cmd(&arr[i]);
                    proof {
                        assert(es.skip(i as int)[0] == es[i as int]);
                        assert(es.skip(i as int).drop_first() =~= es.skip(i as int + 1));
                    }
                    match rc {
                        Ok(c) => {
                            let ghost prev = out@;
                            out.push(c);
                            proof {
                                assert(cmd_views(out@) =~= cmd_views(prev).push(c@));
                                let tail = dec_cmd_list(es.skip(i as int + 1));
                                if tail is Some {
                                    let rest = tail->Some_0;
                                    assert(cmd_views(prev) + (seq![c@] + rest) =~= cmd_views(
                                        out@,
                                    ) + rest);
                                }
                            }
                            i = i + 1;
                        },
                        Err(m) => {
                            return Err(m);
                        },
                    }
                }
                proof {
                    assert(es.skip(i as int) =~= Seq::<TomlNode>::empty());
                    assert(cmd_views(out@) + Seq::<RawCmdView>::empty() =~= cmd_views(out@));
                }
                Ok(RawCmd::List(out))
            },
            None => Err(String::from_str("cmd must be a string or a list of strings")),
        },
    }
}

/// Decodes an environment table into ordered pairs.
fn decode_env_table(t: &toml::map::Map<String, toml::Value>) -> (r: Result<RawEnv, String>)
    ensures
        dec_env_entries(table_entries_of(*t)) matches Ok(ps) ==> r matches Ok(re) && re@ == ps,
        dec_env_entries(table_entries_of(*t)) matches Err(m) ==> r matches Err(e) && e@ == m,
{
    let ghost es = table_entries_of(*t);
    let entries = table_entries(t);
    let mut out: Vec<(String, String)> = Vec::new();
    let mut i: usize = 0;
    proof {
        assert(es.skip(0) =~= es);
        let whole = dec_env_entries(es);
        if whole is Ok {
            assert(pairs_view(out@) + whole->Ok_0 =~= whole->Ok_0);
        }
    }
    while i < entries.len()
        invariant
            i <= entries@.len(),
            es == table_entries_of(*t),
            entries@.len() == es.len(),
            forall|j: int|
                0 <= j < es.len() ==> entries@[j].0@ == es[j].0 && toml_node(entries@[j].1)
                    == es[j].1,
            dec_env_entries(es) == (match dec_env_entries(es.skip(i as int)) {
                Ok(rest) => Ok::<_, Seq<char>>(pairs_view(out@) + rest),
                Err(m) => Err(m),
            }),
        decreases entries@.len() - i,
    {
        proof {
            assert(es.skip(i as int)[0] == es[i as int]);
            assert(es.skip(i as int).drop_first() =~= es.skip(i as int + 1));
        }
        match value_as_str(&entries[i].1) {
            Some(s) => {
                let ghost prev = out@;
                out.push((entries[i].0.clone(), String::from_str(s)));
                proof {
                    assert(pairs_view(out@) =~= pairs_view(prev).push(
                        (es[i as int].0, es[i as int].1->Str_0),
                    ));
                    let tail = dec_env_entries(es.skip(i as int + 1));
                    if tail is Ok {
                        let rest = tail->Ok_0;
                        assert(pairs_view(prev) + (seq![(es[i as int].0, es[i as int].1->Str_0)]
                            + rest) =~= pairs_view(out@) + rest);
                    }
                }
                i = i + 1;
            },
            None => {
                return Err(String::from_str("env values must be strings"));
            },
        }
    }
    proof {
        assert(es.skip(i as int) =~= Seq::<(Seq<char>, TomlNode)>::empty());
        assert(pairs_view(out@) + Seq::<(Seq<char>, Seq<char>)>::empty() =~= pairs_view(out@));
    }
    Ok(RawEnv(out))
}

/// Decodes one script entry.
fn decode_script(v: &toml::Value) -> (r: Result<RawScript, String>)
    ensures
        match dec_script(toml_node(*v)) {
            Ok(s) => r matches Ok(rs) && rs@ == s,
            Err(m) => r matches Err(e) && e@ == m,
        },
{
    let t = match value_as_table(v) {
        Some(t) => t,
        None => {
            return Err(String::from_str("each scripts entry must be a table"));
        },
    };
    let name = match table_get(t, "name") {
        Some(nv) => match value_as_str(nv) {
            Some(s) => String::from_str(s),
            None => {
                return Err(String::from_str("name must be a string"));
            },
        },
        None => {
            return Err(String::from_str("missing field name"));
        },
    };
    let cmd = match table_get(t, "cmd") {
        Some(cv) => match decode_cmd(cv) {
            Ok(c) => c,
            Err(m) => {
                return Err(m);
            },
        },
        None => {
            return Err(String::from_str("missing field cmd"));
        },
    };
    let cwd = match table_get(t, "cwd") {
        Some(dv) => match value_as_str(dv) {
            Some(s) => Some(String::from_str(s)),
            None => {
                return Err(String::from_str("cwd must be a string"));
            },
        },
        None => None,
    };
    let env = match table_get(t, "env") {
        Some(ev) => match value_as_table(ev) {
            Some(et) => match decode_env_table(et) {
                Ok(e) => Some(e),
                Err(m) => {
                    return Err(m);
                },
            },
            None => {
                return Err(String::from_str("env must be a table of strings"));
            },
        },
        None => None,
    };
    Ok(RawScript { name, cmd, cwd, env })
}

impl RawConfig {
    /// Parses a manifest text.  A text the TOML engine refuses fails with
    /// the engine's own message; a well-formed document is decoded exactly
    /// as [`dec_config`] describes.
    pub fn parse(text: &str) -> (r: Result<RawConfig, String>)
        ensures
            match toml_doc_of(text@) {
                Some(doc) => match dec_config(doc) {
                    Ok(c) => r matches Ok(rc) && rc@ == c,
                    Err(m) => r matches Err(e) && e@ == m,
                },
                None => r is Err,
            },
    {
        let doc = match parse_toml_text(text) {
            Ok(v) => v,
            Err(m) => {
                return Err(m);
            },
        };
        let t = match value_as_table(&doc) {
            Some(t) => t,
            None => {
                return Err(String::from_str("the manifest must be a table"));
            },
        };
        let ghost es = table_entries_of(*t);
        let scripts_val = match table_get(t, "scripts") {
            Some(sv) => sv,
            None => {
                return Err(String::from_str("missing field scripts"));
            },
        };
        let arr = match value_as_array(scripts_val) {
            Some(a) => a,
            None => {
                return Err(String::from_str("scripts must be an array of tables"));
            },
        };
        let ghost ss = toml_node(*scripts_val)->Arr_0;
        let mut scripts: Vec<RawScript> = Vec::new();
        let mut i: usize = 0;
        proof {
            assert(ss.skip(0) =~= ss);
            let whole = dec_scripts(ss);
            if whole is Ok {
                assert(script_views(scripts@) + whole->Ok_0 =~= whole->Ok_0);
            }
        }
        while i < arr.len()
            invariant
                i <= arr@.len(),
                arr@.len() == ss.len(),
                toml_doc_of(text@) == Some(TomlNode::Tab(es)),
                es == table_entries_of(*t),
                assoc(es, "scripts"@) == Some(TomlNode::Arr(ss)),
                forall|j: int| 0 <= j < ss.len() ==> toml_node(arr@[j]) == ss[j],
                dec_scripts(ss) == (match dec_scripts(ss.skip(i as int)) {
                    Ok(rest) => Ok::<_, Seq<char>>(script_views(scripts@) + rest),
                    Err(m) => Err(m),
                }),
            decreases arr@.len() - i,
        {
            proof {
                assert(ss.skip(i as int)[0] == ss[i as int]);
                assert(ss.skip(i as int).drop_first() =~= ss.skip(i as int + 1));
            }
            match decode_script(&arr[i]) {
                Ok(s) => {
                    let ghost prev = scripts@;
                    let ghost sv = dec_script(ss[i as int])->Ok_0;
                    scripts.push(s);
                    proof {
                        assert(script_views(scripts@) =~= script_views(prev).push(sv));
                        let tail = dec_scripts(ss.skip(i as int + 1));
                        if tail is Ok {
                            let rest = tail->Ok_0;
                            assert(script_views(prev) + (seq![sv] + rest) =~= script_views(
                                scripts@,
                            ) + rest);
                        }
                    }
                    i = i + 1;
                },
                Err(m) => {
                    return Err(m);
                },
            }
        }
        proof {
            assert(ss.skip(i as int) =~= Seq::<TomlNode>::empty());
            assert(script_views(scripts@) + Seq::<RawScriptView>::empty() =~= script_views(
                scripts@,
            ));
        }
        let config = match table_get(t, "config") {
            Some(cv) => match value_as_table(cv) {
                Some(ct) => match decode_env_table(ct) {
                    Ok(e) => Some(e),
                    Err(m) => {
                        return Err(m);
                    },
                },
                None => {
                    return Err(String::from_str("env must be a table of strings"));
                },
            },
            None => None,
        };
        Ok(RawConfig { scripts, config })
    }
}

} // verus!
