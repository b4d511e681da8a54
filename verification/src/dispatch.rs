//! The dispatcher: classifies the first token of a lexed line, runs a
//! builtin or asks the driver to act, and reports the continuation
//! signal. Dispatch happens in two verified steps. `respond` needs
//! only the line and the environment values the driver already holds;
//! when the command has to be resolved against the search path, it
//! returns `Action::Resolve`, the driver checks the filesystem, and
//! `respond_resolved` finishes the decision.

use vstd::prelude::*;

use crate::builtins::cd;
use crate::builtins::cd_diag;
use crate::builtins::echo;
use crate::builtins::exit;
use crate::builtins::is_builtin;
use crate::builtins::is_builtin_name;
use crate::builtins::join_spaces;
use crate::builtins::pwd;
use crate::builtins::CdRequest;
use crate::lex;
use crate::lex_spec;
use crate::str_eq;
use crate::views;

verus! {

/// What one dispatched line asks of the driver.
///
/// - `Done`: write `out` to standard output; `quit` tells the loop to
///   terminate.
/// - `Chdir`: change the working directory to `target`; when that
///   fails, write `diag` and carry on.
/// - `Resolve`: look `name` up along the search path and come back
///   through `respond_resolved`; `report` distinguishes a `type`
///   report from running an external command.
/// - `Spawn`: run the program named `program` with `args`, inheriting
///   the standard streams, and wait for it.
#[derive(Debug, PartialEq, Eq)]
pub enum Action {
    Done { out: String, quit: bool },
    Chdir { target: String, diag: String },
    Resolve { name: String, args: Vec<String>, report: bool },
    Spawn { program: String, args: Vec<String> },
}

/// The character sequence of an optional string.
pub open spec fn opt_view(o: Option<String>) -> Option<Seq<char>> {
    match o {
        Some(s) => Some(s@),
        None => None,
    }
}

/// The component after the last path separator.
pub open spec fn basename(p: Seq<char>) -> Seq<char>
    decreases p.len(),
{
    if p.len() == 0 {
        p
    } else if p.last() == '/' {
        Seq::<char>::empty()
    } else {
        basename(p.drop_last()).push(p.last())
    }
}

/// What dispatching a tokenized line must produce, given the token
/// sequence and the working directory and home directory the driver
/// handed in. An empty token sequence is a quiet no-op; a builtin
/// first token fixes the output, the continuation signal and every
/// error message; any other first token asks for resolution.
pub open spec fn dispatch_decision(
    toks: Seq<Seq<char>>,
    cwd: Option<Seq<char>>,
    home: Option<Seq<char>>,
    r: Result<Action, String>,
) -> bool {
    if toks.len() == 0 {
        r matches Ok(a) && a matches Action::Done { out, quit } && out@.len() == 0 && quit == false
    } else {
        let cmd = toks[0];
        let args = toks.drop_first();
        if cmd == "echo"@ {
            r matches Ok(a) && a matches Action::Done { out, quit } && out@ == join_spaces(
                args,
            ).push('\n') && quit == false
        } else if cmd == "exit"@ {
            if args.len() == 1 && args[0] == "0"@ {
                r matches Ok(a) && a matches Action::Done { out, quit } && out@.len() == 0 && quit
                    == true
            } else if args.len() != 1 {
                r matches Err(e) && e@ == "exit requires a single argument\n"@
            } else {
                r matches Err(e) && e@ == "Unknown exit code received in arg\n"@
            }
        } else if cmd == "pwd"@ {
            match cwd {
                Some(p) => r matches Ok(a) && a matches Action::Done { out, quit } && out@
                    == p.push('\n') && quit == false,
                None => r matches Err(e) && e@ == "error in pwd"@,
            }
        } else if cmd == "type"@ {
            if args.len() == 0 {
                r matches Err(e) && e@ == "type requires an argument\n"@
            } else if is_builtin_name(args[0]) {
                r matches Ok(a) && a matches Action::Done { out, quit } && out@ == args[0]
                    + " is a shell builtin\n"@ && quit == false
            } else {
                r matches Ok(a) && a matches Action::Resolve { name, args: rest, report } && name@
                    == args[0] && rest@.len() == 0 && report == true
            }
        } else if cmd == "cd"@ {
            if args.len() == 0 {
                r matches Ok(a) && a matches Action::Done { out, quit } && out@.len() == 0 && quit
                    == false
            } else if args[0] == "~"@ {
                match home {
                    Some(h) => r matches Ok(a) && a matches Action::Chdir { target, diag }
                        && target@ == h && diag@ == cd_diag(args[0]),
                    None => r matches Err(e) && e@ == "$HOME is not set"@,
                }
            } else {
                r matches Ok(a) && a matches Action::Chdir { target, diag } && target@ == args[0]
                    && diag@ == cd_diag(args[0])
            }
        } else {
            r matches Ok(a) && a matches Action::Resolve { name, args: rest, report } && name@
                == cmd && views(rest@) == args && report == false
        }
    }
}

/// What finishing a resolution must produce: a `type` report names the
/// resolved path or reports "not found"; an external command is
/// spawned under its file name with the remaining tokens, and an
/// unresolved one is the "command not found" error.
pub open spec fn resolved_decision(
    name: Seq<char>,
    argvs: Seq<Seq<char>>,
    report: bool,
    found: Option<Seq<char>>,
    r: Result<Action, String>,
) -> bool {
    if report {
        match found {
            Some(p) => r matches Ok(a) && a matches Action::Done { out, quit } && out@ == name
                + " is "@ + p + "\n"@ && quit == false,
            None => r matches Ok(a) && a matches Action::Done { out, quit } && out@ == name
                + ": not found\n"@ && quit == false,
        }
    } else {
        match found {
            Some(p) => r matches Ok(a) && a matches Action::Spawn { program, args } && program@
                == basename(p) && views(args@) == argvs,
            None => r matches Err(e) && e@ == name + ": command not found\n"@,
        }
    }
}

/// The tokens after the command name.
fn tail(toks: &Vec<String>) -> (r: Vec<String>)
    requires
        toks@.len() >= 1,
    ensures
        views(r@) == views(toks@).drop_first(),
{
    let mut r: Vec<String> = Vec::new();
    let mut i: usize = 1;
    proof {
        assert(views(r@) =~= views(toks@).subrange(1, 1));
    }
    while i < toks.len()
        invariant
            1 <= i <= toks@.len(),
            views(r@) == views(toks@).subrange(1, i as int),
        decreases toks@.len() - i,
    {
        let ghost r0 = r@;
        r.push(toks[i].clone());
        proof {
            let tvs = views(toks@);
            assert(tvs.len() == toks@.len());
            assert(views(r@).len() == r@.len());
            assert(views(r0).len() == r0.len());
            assert forall|k: int| 0 <= k < r@.len() implies views(r@)[k] == tvs.subrange(
                1,
                i as int + 1,
            )[k] by {
                assert(views(r@)[k] == r@[k]@);
                assert(tvs.subrange(1, i as int + 1)[k] == tvs[k + 1]);
                assert(tvs[k + 1] == toks@[k + 1]@);
                if k < r0.len() {
                    assert(r@[k] == r0[k]);
                    assert(views(r0)[k] == r0[k]@);
                    assert(views(r0)[k] == tvs.subrange(1, i as int)[k]);
                    assert(tvs.subrange(1, i as int)[k] == tvs[k + 1]);
                } else {
                    assert(r@[k] == toks@[i as int]);
                }
            }
            assert(views(r@) =~= tvs.subrange(1, i as int + 1));
        }
        i += 1;
    }
    proof {
        assert(views(toks@).subrange(1, toks@.len() as int) =~= views(toks@).drop_first());
    }
    r
}

/// The component of an executable path after the last separator; an
/// external program is spawned under this name, not the full path.
fn base_name(p: &str) -> (r: String)
    ensures
        r@ == basename(p@),
{
    let n = p.unicode_len();
    let mut out = String::new();
    let mut i: usize = 0;
    proof {
        assert(out@ =~= p@.subrange(0, 0));
    }
    while i < n
        invariant
            n == p@.len(),
            i <= n,
            out@ == basename(p@.subrange(0, i as int)),
        decreases n - i,
    {
        let c = p.get_char(i);
        proof {
            assert(p@.subrange(0, i as int + 1).last() == p@[i as int]);
            assert(p@.subrange(0, i as int + 1).drop_last() =~= p@.subrange(0, i as int));
        }
        if c == '/' {
            out = String::new();
        } else {
            out.push(c);
        }
        i += 1;
    }
    proof {
        assert(p@.subrange(0, n as int) =~= p@);
    }
    out
}

/// Dispatches one input line: tokenizes it, runs the builtin the first
/// token names, or asks the driver to resolve an external command. A
/// lexing failure is the unterminated-quote error; everything else is
/// fixed by `dispatch_decision`.
pub fn respond(line: &str, cwd: &Option<String>, home: &Option<String>) -> (r: Result<
    Action,
    String,
>)
    ensures
        lex_spec(line@) is None ==> (r matches Err(e) && e@ == "Unterminated quote detected"@),
        lex_spec(line@) matches Some(toks) ==> dispatch_decision(
            toks,
            opt_view(*cwd),
            opt_view(*home),
            r,
        ),
{
    let toks = match lex(line) {
        Ok(t) => t,
        Err(e) => { return Err(e); },
    };
    if toks.len() == 0 {
        return Ok(Action::Done { out: String::new(), quit: false });
    }
    let ghost tv = views(toks@);
    let args = tail(&toks);
    proof {
        assert(tv[0] == toks@[0]@);
        assert(views(args@).len() == args@.len());
        if args@.len() > 0 {
            assert(views(args@)[0] == args@[0]@);
        }
    }
    if str_eq(toks[0].as_str(), "echo") {
        let (out, quit) = echo(args.as_slice());
        Ok(Action::Done { out, quit })
    } else if str_eq(toks[0].as_str(), "exit") {
        match exit(args.as_slice()) {
            Ok(quit) => Ok(Action::Done { out: String::new(), quit }),
            Err(e) => Err(e),
        }
    } else if str_eq(toks[0].as_str(), "pwd") {
        match pwd(cwd) {
            Ok(ob) => Ok(Action::Done { out: ob.0, quit: ob.1 }),
            Err(e) => Err(e),
        }
    } else if str_eq(toks[0].as_str(), "type") {
        if args.len() == 0 {
            return Err("type requires an argument\n".to_owned());
        }
        if is_builtin(args[0].as_str()) {
            let mut out = args[0].clone();
            out.append(" is a shell builtin\n");
            return Ok(Action::Done { out, quit: false });
        }
        Ok(Action::Resolve { name: args[0].clone(), args: Vec::new(), report: true })
    } else if str_eq(toks[0].as_str(), "cd") {
        match cd(args.as_slice(), home) {
            Ok((CdRequest::Stay, quit)) => Ok(Action::Done { out: String::new(), quit }),
            Ok((CdRequest::Go { target, diag }, _)) => Ok(Action::Chdir { target, diag }),
            Err(e) => Err(e),
        }
    } else {
        Ok(Action::Resolve { name: toks[0].clone(), args, report: false })
    }
}

/// Finishes dispatching a command that had to be resolved against the
/// search path, from the resolver's answer.
pub fn respond_resolved(
    name: &String,
    args: Vec<String>,
    report: bool,
    found: &Option<String>,
) -> (r: Result<Action, String>)
    ensures
        resolved_decision(name@, views(args@), report, opt_view(*found), r),
{
    if report {
        let mut out = name.clone();
        match found {
            Some(p) => {
                out.append(" is ");
                out.append(p.as_str());
                out.append("\n");
                Ok(Action::Done { out, quit: false })
            },
            None => {
                out.append(": not found\n");
                Ok(Action::Done { out, quit: false })
            },
        }
    } else {
        match found {
            Some(p) => Ok(Action::Spawn { program: base_name(p.as_str()), args }),
            None => {
                let mut msg = name.clone();
                msg.append(": command not found\n");
                Err(msg)
            },
        }
    }
}

} // verus!
