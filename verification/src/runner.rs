//! Preparing a validated script for execution.
//!
//! A script runs as a shell script: its command tree is flattened, depth
//! first and left to right, into one echoed-diagnostic line and one command
//! line per literal; the body opens with a directory change where the script
//! asks for one, then one `export` line per global environment entry
//! followed by one per script-local entry, so that a local entry of the same
//! name overrides the global one under ordinary shell semantics.  The
//! embedding program writes the body to a temporary file, runs a shell on
//! it, and removes the file on every exit path; the file's name is derived
//! here from a nanosecond clock reading.

use vstd::prelude::*;

use crate::config::{dom_cmd_views, Cmd, CmdView, Env, Script, ScriptView};
use crate::fmt_num::{dec_str, u128_to_string};

verus! {

broadcast use
    vstd::seq::axiom_seq_index_decreases,
    vstd::seq::axiom_seq_subrange_decreases,
    vstd::std_specs::vec::axiom_vec_decreases_to_view,
    vstd::std_specs::vec::axiom_vec_index_decreases;

/// The two shell lines a literal command contributes: an echo of the command
/// for visibility, then the command itself.
pub open spec fn literal_lines(s: Seq<char>) -> Seq<char> {
    "echo $ "@ + s + "\n"@ + s + "\n"@
}

/// The flattening of one command tree: leaves in depth-first, left-to-right
/// order, each contributing its two lines.
pub open spec fn flat_lines(c: CmdView) -> Seq<char>
    decreases c,
{
    match c {
        CmdView::Literal(s) => literal_lines(s),
        CmdView::Consecutive(cs) => flat_cmds(cs),
    }
}

/// The flattening of a list of command trees, in order.
pub open spec fn flat_cmds(cs: Seq<CmdView>) -> Seq<char>
    decreases cs,
{
    if cs.len() == 0 {
        Seq::empty()
    } else {
        flat_cmds(cs.drop_last()) + flat_lines(cs.last())
    }
}

/// Appends the flattening of `cmd` to `buf`.
#[verifier::loop_isolation(false)]
pub fn write_commands(buf: &mut String, cmd: &Cmd)
    ensures
        final(buf)@ == old(buf)@ + flat_lines(cmd@),
    decreases *cmd,
{
    match cmd {
        Cmd::Literal(s) => {
            buf.append("echo $ ");
            buf.append(s.as_str());
            buf.append("\n");
            buf.append(s.as_str());
            buf.append("\n");
            proof {
                assert(buf@ =~= old(buf)@ + literal_lines(s@));
            }
        },
        Cmd::Consecutive(cs) => {
            let ghost vs = dom_cmd_views(cs@);
            let mut i: usize = 0;
            proof {
                assert(flat_cmds(vs.take(0)) =~= Seq::<char>::empty());
                assert(buf@ =~= old(buf)@ + flat_cmds(vs.take(0)));
            }
            while i < cs.len()
                invariant
                    i <= cs@.len(),
                    buf@ == old(buf)@ + flat_cmds(vs.take(i as int)),
                decreases cs@.len() - i,
            {
                write_commands(buf, &cs[i]);
                proof {
                    assert(vs.take(i as int + 1).drop_last() =~= vs.take(i as int));
                    assert(vs.take(i as int + 1).last() == cs@[i as int]@);
                    assert(buf@ =~= old(buf)@ + flat_cmds(vs.take(i as int + 1)));
                }
                i = i + 1;
            }
            proof {
                assert(vs.take(i as int) =~= vs);
            }
        },
    }
}

/// The directory-change line, where a working directory is set.
pub open spec fn cd_lines(cwd: Option<Seq<char>>) -> Seq<char> {
    match cwd {
        Some(d) => "cd "@ + d + "\n"@,
        None => Seq::empty(),
    }
}

/// One `export` line per environment entry, in order.
pub open spec fn export_lines(es: Seq<Seq<char>>) -> Seq<char>
    decreases es,
{
    if es.len() == 0 {
        Seq::empty()
    } else {
        export_lines(es.drop_last()) + ("export "@ + es.last() + "\n"@)
    }
}

/// The whole shell body for one script run: the directory change, the global
/// exports, the script-local exports, then the flattened commands.
pub open spec fn compose_spec(s: ScriptView, global: Seq<Seq<char>>) -> Seq<char> {
    cd_lines(s.cwd) + export_lines(global) + export_lines(s.env) + flat_lines(s.cmd)
}

/// Appends one `export` line per entry of `env` to `buf`.
#[verifier::loop_isolation(false)]
fn write_exports(buf: &mut String, env: &Env)
    ensures
        final(buf)@ == old(buf)@ + export_lines(env@),
{
    let ghost es = env@;
    let mut i: usize = 0;
    proof {
        assert(export_lines(es.take(0)) =~= Seq::<char>::empty());
        assert(buf@ =~= old(buf)@ + export_lines(es.take(0)));
    }
    while i < env.0.len()
        invariant
            i <= env.0@.len(),
            buf@ == old(buf)@ + export_lines(es.take(i as int)),
        decreases env.0@.len() - i,
    {
        buf.append("export ");
        buf.append(env.0[i].as_str());
        buf.append("\n");
        proof {
            assert(es.take(i as int + 1).drop_last() =~= es.take(i as int));
            assert(es.take(i as int + 1).last() == env.0@[i as int]@);
            assert(buf@ =~= old(buf)@ + export_lines(es.take(i as int + 1)));
        }
        i = i + 1;
    }
    proof {
        assert(es.take(i as int) =~= es);
    }
}

/// Composes the shell body for `script`, with `global` exported before the
/// script's own environment.
pub fn compose_script(script: &Script, global: &Env) -> (sh: String)
    ensures
        sh@ == compose_spec(script@, global@),
{
    let mut sh = String::new();
    match &script.cwd {
        Some(d) => {
            sh.append("cd ");
            sh.append(d.as_str());
            sh.append("\n");
            proof {
                assert(sh@ =~= cd_lines(script@.cwd));
            }
        },
        None => {
            proof {
                assert(sh@ =~= cd_lines(script@.cwd));
            }
        },
    }
    write_exports(&mut sh, global);
    write_exports(&mut sh, &script.env);
    write_commands(&mut sh, &script.cmd);
    proof {
        assert(sh@ =~= compose_spec(script@, global@));
    }
    sh
}

/// The name of the temporary file for a run started at clock reading `n`:
/// the reading in decimal between a tilde and the shell suffix.
pub open spec fn temp_name_spec(n: nat) -> Seq<char> {
    "~"@ + dec_str(n) + ".sh"@
}

/// Derives the temporary file name from a nanosecond clock reading.
pub fn temp_file_name(nanos: u128) -> (s: String)
    ensures
        s@ == temp_name_spec(nanos as nat),
{
    String::from_str("~").concat(u128_to_string(nanos).as_str()).concat(".sh")
}

} // verus!
