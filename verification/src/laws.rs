//! Properties of validation and command rebuilding, stated and proved once
//! for all manifests.

use vstd::prelude::*;

use crate::config::{
    cmd_of_raw, cmds_of_raw, collision_msg, env_entry_str, env_from_pairs, env_key_char_ok,
    fold_scripts, has_name, invalid_env_msg, name_err_msg, opt_pairs, script_err_msg,
    script_from_raw_spec, valid_env_key, valid_name, validate_spec, CmdView, ConfigView,
    FoldState, ValidationErrorView,
};
use crate::raw_config::{dec_cmd, dec_cmd_list, RawCmdView, RawConfigView, RawScriptView};
use crate::toml_value::TomlNode;

verus! {

broadcast use
    vstd::seq::axiom_seq_index_decreases,
    vstd::seq::axiom_seq_subrange_decreases;

// ---------------------------------------------------------------------------
// The walk over an all-valid script list.
// ---------------------------------------------------------------------------

/// After `n` steps over scripts that all validate and whose names are
/// pairwise distinct, the walk is running, has collected exactly the first
/// `n` scripts, keyed by their names in order, and has no messages.
proof fn lemma_fold_all_valid(ss: Seq<RawScriptView>, n: int)
    requires
        0 <= n <= ss.len(),
        forall|i: int| 0 <= i < ss.len() ==> script_from_raw_spec(#[trigger] ss[i]) is Ok,
        forall|i: int, j: int| 0 <= i < j < ss.len() ==> ss[i].name != ss[j].name,
    ensures
        fold_scripts(ss, n) matches FoldState::Running(entries, errs) && entries.len() == n
            && errs.len() == 0 && (forall|k: int|
            0 <= k < n ==> #[trigger] entries[k] == script_from_raw_spec(ss[k])->Ok_0)
            && (forall|k: int| 0 <= k < n ==> #[trigger] entries[k].0 == ss[k].name),
    decreases n,
{
    if n > 0 {
        lemma_fold_all_valid(ss, n - 1);
        let st = fold_scripts(ss, n - 1);
        let entries = st->Running_0;
        let p = script_from_raw_spec(ss[n - 1])->Ok_0;
        assert(p.0 == ss[n - 1].name);
        assert forall|k: int| 0 <= k < entries.len() implies #[trigger] entries[k].0 != p.0 by {
            assert(entries[k].0 == ss[k].name);
        }
        assert(!has_name(entries, p.0));
    }
}

/// Validating a manifest whose scripts all carry legal, pairwise distinct
/// names and legal environment maps, and whose global environment is legal,
/// succeeds and yields exactly one entry per script, keyed by its name, in
/// the manifest's order.
pub proof fn lemma_validate_all_valid(r: RawConfigView)
    requires
        forall|i: int|
            0 <= i < r.scripts.len() ==> script_from_raw_spec(#[trigger] r.scripts[i]) is Ok,
        forall|i: int, j: int|
            0 <= i < j < r.scripts.len() ==> r.scripts[i].name != r.scripts[j].name,
        env_from_pairs(opt_pairs(r.config)) is Ok,
    ensures
        validate_spec(r) matches Ok(c) && c.scripts.len() == r.scripts.len() && (forall|k: int|
            0 <= k < r.scripts.len() ==> #[trigger] c.scripts[k].0 == r.scripts[k].name),
{
    lemma_fold_all_valid(r.scripts, r.scripts.len() as int);
}

/// While the walk runs, every collected name is legal and no name appears
/// twice: the collision check guards every insertion, and only scripts that
/// passed the name checks are inserted.
proof fn lemma_fold_entries_wf(ss: Seq<RawScriptView>, n: int)
    requires
        0 <= n <= ss.len(),
    ensures
        fold_scripts(ss, n) matches FoldState::Running(entries, errs) ==> (forall|a: int, b: int|
            0 <= a < b < entries.len() ==> (#[trigger] entries[a]).0 != (#[trigger] entries[b]).0)
            && (forall|k: int| 0 <= k < entries.len() ==> valid_name((#[trigger] entries[k]).0)),
    decreases n,
{
    if n > 0 {
        lemma_fold_entries_wf(ss, n - 1);
        let st = fold_scripts(ss, n - 1);
        if st is Running && script_from_raw_spec(ss[n - 1]) is Ok {
            let entries = st->Running_0;
            let p = script_from_raw_spec(ss[n - 1])->Ok_0;
            if !has_name(entries, p.0) {
                let pushed = entries.push(p);
                assert(valid_name(p.0));
                assert forall|a: int, b: int| 0 <= a < b < pushed.len() implies (
                #[trigger] pushed[a]).0 != (#[trigger] pushed[b]).0 by {
                    if b == entries.len() {
                        assert(pushed[a] == entries[a]);
                    }
                }
            }
        }
    }
}

/// A validated manifest keeps the name invariants: every script name in the
/// result is legal, and no two entries share a name.
pub proof fn lemma_validate_names_unique(r: RawConfigView)
    ensures
        validate_spec(r) matches Ok(c) ==> (forall|a: int, b: int|
            0 <= a < b < c.scripts.len() ==> (#[trigger] c.scripts[a]).0 != (
            #[trigger] c.scripts[b]).0) && (forall|k: int|
            0 <= k < c.scripts.len() ==> valid_name((#[trigger] c.scripts[k]).0)),
{
    lemma_fold_entries_wf(r.scripts, r.scripts.len() as int);
}

// ---------------------------------------------------------------------------
// Name collisions.
// ---------------------------------------------------------------------------

/// Whether the script at `j` repeats the name of an earlier script.
pub open spec fn dup_at(ss: Seq<RawScriptView>, j: int) -> bool {
    exists|i: int| 0 <= i < j && ss[i].name == ss[j].name
}

/// Finds the first position whose name repeats an earlier one, given any
/// such position.
proof fn first_dup_index(ss: Seq<RawScriptView>, j: int) -> (r: int)
    requires
        0 <= j < ss.len(),
        dup_at(ss, j),
    ensures
        0 <= r < ss.len(),
        dup_at(ss, r),
        forall|k: int| 0 <= k < r ==> !dup_at(ss, k),
    decreases j,
{
    if exists|k: int| 0 <= k < j && dup_at(ss, k) {
        let k = choose|k: int| 0 <= k < j && dup_at(ss, k);
        first_dup_index(ss, k)
    } else {
        j
    }
}

/// Validating a manifest whose scripts all validate on their own but where
/// two of them share a name fails with the collision message citing the
/// repeated name, however many other scripts there are.
pub proof fn lemma_validate_duplicate_name(r: RawConfigView)
    requires
        forall|i: int|
            0 <= i < r.scripts.len() ==> script_from_raw_spec(#[trigger] r.scripts[i]) is Ok,
        exists|i: int, j: int|
            0 <= i < j < r.scripts.len() && r.scripts[i].name == r.scripts[j].name,
    ensures
        exists|j: int|
            0 <= j < r.scripts.len() && dup_at(r.scripts, j) && validate_spec(r) == Err::<
                ConfigView,
                ValidationErrorView,
            >(ValidationErrorView::Single(collision_msg(r.scripts[j].name))),
{
    let ss = r.scripts;
    let (i0, j0) = choose|i: int, j: int|
        0 <= i < j < ss.len() && ss[i].name == ss[j].name;
    assert(dup_at(ss, j0));
    let j = first_dup_index(ss, j0);
    let prefix = ss.take(j);
    assert forall|a: int| 0 <= a < prefix.len() implies script_from_raw_spec(
        #[trigger] prefix[a],
    ) is Ok by {
        assert(prefix[a] == ss[a]);
    }
    assert forall|a: int, b: int| 0 <= a < b < prefix.len() implies prefix[a].name
        != prefix[b].name by {
        assert(prefix[a] == ss[a] && prefix[b] == ss[b]);
        assert(!dup_at(ss, b));
    }
    lemma_fold_prefix(ss, j);
    lemma_fold_all_valid(prefix, j);
    let st = fold_scripts(ss, j);
    let entries = st->Running_0;
    let i = choose|i: int| 0 <= i < j && ss[i].name == ss[j].name;
    assert(entries[i].0 == prefix[i].name);
    assert(has_name(entries, script_from_raw_spec(ss[j])->Ok_0.0));
    assert(fold_scripts(ss, j + 1) == FoldState::Halted(collision_msg(ss[j].name)));
    crate::config::lemma_fold_halted(ss, j + 1, ss.len() as int);
}

/// The walk over the first `n` scripts only reads those scripts, so it is
/// the walk over the length-`n` prefix.
proof fn lemma_fold_prefix(ss: Seq<RawScriptView>, n: int)
    requires
        0 <= n <= ss.len(),
    ensures
        forall|m: int| 0 <= m <= n ==> fold_scripts(ss, m) == fold_scripts(#[trigger] ss.take(n), m),
    decreases n,
{
    assert forall|m: int| 0 <= m <= n implies fold_scripts(ss, m) == fold_scripts(
        ss.take(n),
        m,
    ) by {
        lemma_fold_prefix_one(ss, n, m);
    }
}

proof fn lemma_fold_prefix_one(ss: Seq<RawScriptView>, n: int, m: int)
    requires
        0 <= m <= n <= ss.len(),
    ensures
        fold_scripts(ss, m) == fold_scripts(ss.take(n), m),
    decreases m,
{
    if m > 0 {
        lemma_fold_prefix_one(ss, n, m - 1);
        assert(ss.take(n)[m - 1] == ss[m - 1]);
    }
}

// ---------------------------------------------------------------------------
// Per-script messages.
// ---------------------------------------------------------------------------

/// The name checks fire in a fixed priority order: an empty name wins over
/// everything, a space or tab wins over a leading dash.
pub proof fn lemma_name_error_priority(s: Seq<char>)
    ensures
        s.len() == 0 ==> (name_err_msg(s) == "script name cannot be empty"@ && !valid_name(s)),
        (s.len() > 0 && exists|i: int| 0 <= i < s.len() && (s[i] == ' ' || s[i] == '\t')) ==> (
        name_err_msg(s) == "script name cannot contain tabs or spaces"@ && !valid_name(s)),
        (s.len() > 0 && (forall|i: int| 0 <= i < s.len() ==> s[i] != ' ' && s[i] != '\t') && s[0]
            == '-') ==> (name_err_msg(s) == "script name cannot start with -"@ && !valid_name(s)),
{
}

/// After `n` steps over scripts whose valid members carry pairwise distinct
/// names, the walk is still running, every collected name belongs to some
/// valid script already seen, and every failed script among the first `n`
/// has contributed its message.
proof fn lemma_fold_no_collision(ss: Seq<RawScriptView>, n: int)
    requires
        0 <= n <= ss.len(),
        forall|a: int, b: int|
            #![trigger ss[a].name, ss[b].name]
            0 <= a < b < ss.len() && script_from_raw_spec(ss[a]) is Ok && script_from_raw_spec(
                ss[b],
            ) is Ok ==> ss[a].name != ss[b].name,
    ensures
        fold_scripts(ss, n) matches FoldState::Running(entries, errs) && (forall|k: int|
            0 <= k < entries.len() ==> exists|a: int|
                0 <= a < n && script_from_raw_spec(#[trigger] ss[a]) is Ok && (
                #[trigger] entries[k]).0 == ss[a].name) && (forall|a: int|
            0 <= a < n && script_from_raw_spec(#[trigger] ss[a]) is Err ==> errs.contains(
                script_err_msg(
                    a as nat,
                    script_from_raw_spec(ss[a])->Err_0.1,
                    script_from_raw_spec(ss[a])->Err_0.0,
                ),
            )),
    decreases n,
{
    if n > 0 {
        lemma_fold_no_collision(ss, n - 1);
        let st = fold_scripts(ss, n - 1);
        let entries = st->Running_0;
        let errs = st->Running_1;
        if script_from_raw_spec(ss[n - 1]) is Ok {
            let p = script_from_raw_spec(ss[n - 1])->Ok_0;
            assert(p.0 == ss[n - 1].name);
            assert forall|k: int| 0 <= k < entries.len() implies (#[trigger] entries[k]).0
                != p.0 by {
                let a = choose|a: int|
                    0 <= a < n - 1 && script_from_raw_spec(#[trigger] ss[a]) is Ok && entries[k].0
                        == ss[a].name;
                assert(ss[a].name != ss[n - 1].name);
            }
            assert(!has_name(entries, p.0));
            let pushed = entries.push(p);
            assert forall|k: int| 0 <= k < pushed.len() implies exists|a: int|
                0 <= a < n && script_from_raw_spec(#[trigger] ss[a]) is Ok && (
                #[trigger] pushed[k]).0 == ss[a].name by {
                if k < entries.len() {
                    let a = choose|a: int|
                        0 <= a < n - 1 && script_from_raw_spec(#[trigger] ss[a]) is Ok
                            && entries[k].0 == ss[a].name;
                    assert(script_from_raw_spec(ss[a]) is Ok);
                    assert(pushed[k].0 == ss[a].name);
                } else {
                    assert(script_from_raw_spec(ss[n - 1]) is Ok);
                    assert(pushed[k].0 == ss[n - 1].name);
                }
            }
        } else {
            let e = script_from_raw_spec(ss[n - 1])->Err_0;
            let msg = script_err_msg((n - 1) as nat, e.1, e.0);
            let pushed = errs.push(msg);
            assert forall|a: int|
                0 <= a < n && script_from_raw_spec(#[trigger] ss[a]) is Err implies pushed.contains(
                script_err_msg(
                    a as nat,
                    script_from_raw_spec(ss[a])->Err_0.1,
                    script_from_raw_spec(ss[a])->Err_0.0,
                ),
            ) by {
                let want = script_err_msg(
                    a as nat,
                    script_from_raw_spec(ss[a])->Err_0.1,
                    script_from_raw_spec(ss[a])->Err_0.0,
                );
                if a < n - 1 {
                    let idx = choose|idx: int| 0 <= idx < errs.len() && errs[idx] == want;
                    assert(pushed[idx] == want);
                } else {
                    assert(pushed[errs.len() as int] == want);
                }
            }
        }
    }
}

/// Validating a manifest whose script at `i` carries an illegal name fails
/// with the per-script messages, among them the one attributing the name
/// error to position `i` alone, provided no name collision halts the walk
/// first.
pub proof fn lemma_validate_bad_name(r: RawConfigView, i: int)
    requires
        0 <= i < r.scripts.len(),
        !valid_name(r.scripts[i].name),
        forall|a: int, b: int|
            #![trigger r.scripts[a].name, r.scripts[b].name]
            0 <= a < b < r.scripts.len() && script_from_raw_spec(r.scripts[a]) is Ok
                && script_from_raw_spec(r.scripts[b]) is Ok ==> r.scripts[a].name
                != r.scripts[b].name,
    ensures
        validate_spec(r) matches Err(e) && e matches ValidationErrorView::Scripts(ms)
            && ms.contains(
            script_err_msg(i as nat, Seq::empty(), name_err_msg(r.scripts[i].name)),
        ),
{
    lemma_fold_no_collision(r.scripts, r.scripts.len() as int);
    let st = fold_scripts(r.scripts, r.scripts.len() as int);
    let errs = st->Running_1;
    assert(script_from_raw_spec(r.scripts[i]) is Err);
    assert(script_from_raw_spec(r.scripts[i])->Err_0 == (
        name_err_msg(r.scripts[i].name),
        Seq::<char>::empty(),
    ));
    let want = script_err_msg(i as nat, Seq::empty(), name_err_msg(r.scripts[i].name));
    assert(errs.contains(want));
    let idx = choose|idx: int| 0 <= idx < errs.len() && errs[idx] == want;
    assert(errs.len() > 0);
}

// ---------------------------------------------------------------------------
// Environment maps.
// ---------------------------------------------------------------------------

/// A name whose characters are all drawn from the letters, digits, `-` and
/// `_`, and which is not empty, formats; every entry comes out as its
/// `NAME=value` line, in order.
pub proof fn lemma_env_all_valid(ps: Seq<(Seq<char>, Seq<char>)>)
    requires
        forall|i: int| 0 <= i < ps.len() ==> valid_env_key((#[trigger] ps[i]).0),
    ensures
        env_from_pairs(ps) matches Ok(es) && es.len() == ps.len() && (forall|i: int|
            0 <= i < ps.len() ==> es[i] == env_entry_str((#[trigger] ps[i]).0, ps[i].1)),
    decreases ps.len(),
{
    if ps.len() > 0 {
        lemma_env_all_valid(ps.drop_first());
        let es = env_from_pairs(ps)->Ok_0;
        let rest = env_from_pairs(ps.drop_first())->Ok_0;
        assert forall|i: int| 0 <= i < ps.len() implies es[i] == env_entry_str(
            (#[trigger] ps[i]).0,
            ps[i].1,
        ) by {
            if i > 0 {
                assert(ps.drop_first()[i - 1] == ps[i]);
                assert(es[i] == rest[i - 1]);
            }
        }
    }
}

/// The first entry whose name is illegal fails the whole map with the
/// message citing exactly that name.
pub proof fn lemma_env_first_bad(ps: Seq<(Seq<char>, Seq<char>)>, i: int)
    requires
        0 <= i < ps.len(),
        !valid_env_key(ps[i].0),
        forall|k: int| 0 <= k < i ==> valid_env_key((#[trigger] ps[k]).0),
    ensures
        env_from_pairs(ps) == Err::<Seq<Seq<char>>, Seq<char>>(invalid_env_msg(ps[i].0)),
    decreases i,
{
    if i > 0 {
        assert forall|k: int| 0 <= k < i - 1 implies valid_env_key(
            (#[trigger] ps.drop_first()[k]).0,
        ) by {
            assert(ps.drop_first()[k] == ps[k + 1]);
        }
        assert(ps.drop_first()[i - 1] == ps[i]);
        lemma_env_first_bad(ps.drop_first(), i - 1);
    }
}

/// A name holding a space is illegal.
pub proof fn lemma_space_key_invalid(k: Seq<char>, i: int)
    requires
        0 <= i < k.len(),
        k[i] == ' ',
    ensures
        !valid_env_key(k),
{
    assert(!env_key_char_ok(' '));
}

// ---------------------------------------------------------------------------
// Command rebuilding loses nothing.
// ---------------------------------------------------------------------------

/// The raw command tree that a validated one stands for: the inverse of
/// [`cmd_of_raw`], shape for shape.
pub open spec fn raw_of_cmd(c: CmdView) -> RawCmdView
    decreases c,
{
    match c {
        CmdView::Literal(s) => RawCmdView::Literal(s),
        CmdView::Consecutive(l) => RawCmdView::List(raws_of_cmds(l)),
    }
}

/// [`raw_of_cmd`], element by element.  The range guard keeps the recursion
/// inside the sequence, where it is decreasing.
pub open spec fn raws_of_cmds(l: Seq<CmdView>) -> Seq<RawCmdView>
    decreases l,
{
    Seq::new(
        l.len(),
        |i: int|
            if 0 <= i < l.len() {
                raw_of_cmd(l[i])
            } else {
                RawCmdView::Literal(Seq::empty())
            },
    )
}

/// Rebuilding a raw command tree keeps its exact shape: mapping the result
/// back gives the tree one started from, at every nesting depth.
pub proof fn lemma_cmd_round_trip(r: RawCmdView)
    ensures
        raw_of_cmd(cmd_of_raw(r)) == r,
    decreases r,
{
    match r {
        RawCmdView::Literal(_) => {
        },
        RawCmdView::List(l) => {
            assert forall|i: int| 0 <= i < l.len() implies raws_of_cmds(cmds_of_raw(l))[i]
                == l[i] by {
                lemma_cmd_round_trip(l[i]);
            }
            assert(raws_of_cmds(cmds_of_raw(l)) =~= l);
        },
    }
}

/// The TOML value tree that writes a raw command down: a literal is a
/// string, a list is an array of its elements' trees.
pub open spec fn node_of_rawcmd(r: RawCmdView) -> TomlNode
    decreases r,
{
    match r {
        RawCmdView::Literal(s) => TomlNode::Str(s),
        RawCmdView::List(l) => TomlNode::Arr(nodes_of_rawcmds(l)),
    }
}

/// [`node_of_rawcmd`], element by element.  The range guard keeps the
/// recursion inside the sequence, where it is decreasing.
pub open spec fn nodes_of_rawcmds(l: Seq<RawCmdView>) -> Seq<TomlNode>
    decreases l,
{
    Seq::new(
        l.len(),
        |i: int|
            if 0 <= i < l.len() {
                node_of_rawcmd(l[i])
            } else {
                TomlNode::Other
            },
    )
}

/// Decoding a command field reads nesting back exactly as written: a string
/// decodes to its literal, and an array decodes to the list of its decoded
/// elements, depth for depth.
pub proof fn lemma_dec_cmd_round_trip(r: RawCmdView)
    ensures
        dec_cmd(node_of_rawcmd(r)) == Some(r),
    decreases r,
{
    match r {
        RawCmdView::Literal(_) => {
        },
        RawCmdView::List(l) => {
            lemma_dec_cmd_list_round_trip(l);
        },
    }
}

proof fn lemma_dec_cmd_list_round_trip(l: Seq<RawCmdView>)
    ensures
        dec_cmd_list(nodes_of_rawcmds(l)) == Some(l),
    decreases l,
{
    if l.len() > 0 {
        lemma_dec_cmd_round_trip(l[0]);
        lemma_dec_cmd_list_round_trip(l.drop_first());
        assert(nodes_of_rawcmds(l).drop_first() =~= nodes_of_rawcmds(l.drop_first()));
        assert(seq![l[0]] + l.drop_first() =~= l);
    } else {
        assert(nodes_of_rawcmds(l).len() == 0);
    }
}

// ---------------------------------------------------------------------------
// Validation is a function of its input.
// ---------------------------------------------------------------------------

/// Validation reads nothing but the raw manifest: equal manifests validate
/// to equal results, so validating twice yields structurally equal values.
pub proof fn lemma_validate_deterministic(a: RawConfigView, b: RawConfigView)
    requires
        a == b,
    ensures
        validate_spec(a) == validate_spec(b),
{
}

} // verus!
