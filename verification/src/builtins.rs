//! The fixed builtin commands and the search-path resolver's decision
//! logic. Each builtin is a function from plain values to the output it
//! emits and the loop-continuation signal; the driver performs the
//! actual printing, directory change and filesystem checks.

use vstd::prelude::*;

use crate::str_eq;
use crate::views;

verus! {

/// The fixed set of builtin command names.
pub open spec fn is_builtin_name(s: Seq<char>) -> bool {
    ||| s == "pwd"@
    ||| s == "type"@
    ||| s == "echo"@
    ||| s == "exit"@
    ||| s == "cd"@
}

/// Exact-string membership test against the fixed builtin table.
pub fn is_builtin(name: &str) -> (r: bool)
    ensures
        r == is_builtin_name(name@),
{
    str_eq(name, "pwd") || str_eq(name, "type") || str_eq(name, "echo") || str_eq(name, "exit")
        || str_eq(name, "cd")
}

/// The builtin `exit`: succeeds with the termination signal exactly on
/// the single argument `"0"`, and rejects any other argument list.
pub fn exit(args: &[String]) -> (r: Result<bool, String>)
    ensures
        r is Ok <==> (args@.len() == 1 && args@[0]@ == "0"@),
        r matches Ok(quit) ==> quit == true,
        args@.len() != 1 ==> (r matches Err(e) && e@ == "exit requires a single argument\n"@),
        (args@.len() == 1 && args@[0]@ != "0"@) ==> (r matches Err(e) && e@
            == "Unknown exit code received in arg\n"@),
{
    if args.len() != 1 {
        return Err("exit requires a single argument\n".to_owned());
    }
    if str_eq(args[0].as_str(), "0") {
        return Ok(true);
    }
    Err("Unknown exit code received in arg\n".to_owned())
}

/// The arguments joined by single spaces.
pub open spec fn join_spaces(ts: Seq<Seq<char>>) -> Seq<char>
    decreases ts.len(),
{
    if ts.len() == 0 {
        Seq::<char>::empty()
    } else if ts.len() == 1 {
        ts[0]
    } else {
        ts[0] + seq![' '] + join_spaces(ts.drop_first())
    }
}

/// Appending one more argument extends the joined string by a space and
/// that argument (by the argument alone when it is the first).
proof fn lemma_join_spaces_push(ts: Seq<Seq<char>>, t: Seq<char>)
    ensures
        join_spaces(ts.push(t)) == if ts.len() == 0 {
            t
        } else {
            join_spaces(ts) + seq![' '] + t
        },
    decreases ts.len(),
{
    if ts.len() == 0 {
        assert(ts.push(t)[0] == t);
    } else if ts.len() == 1 {
        assert(ts.push(t)[0] == ts[0]);
        assert(ts.push(t).drop_first() =~= seq![t]);
        assert(join_spaces(seq![t]) == t);
    } else {
        assert(ts.push(t)[0] == ts[0]);
        assert(ts.push(t).drop_first() =~= ts.drop_first().push(t));
        lemma_join_spaces_push(ts.drop_first(), t);
        assert((ts[0] + seq![' '] + join_spaces(ts.drop_first())) + seq![' '] + t =~= ts[0]
            + seq![' '] + (join_spaces(ts.drop_first()) + seq![' '] + t));
    }
}

/// The builtin `echo`: emits the arguments joined by single spaces as
/// one line, and never terminates the loop.
pub fn echo(args: &[String]) -> (r: (String, bool))
    ensures
        r.0@ == join_spaces(views(args@)).push('\n'),
        r.1 == false,
{
    let mut out = String::new();
    let mut i: usize = 0;
    proof {
        assert(views(args@.subrange(0, 0)) =~= Seq::<Seq<char>>::empty());
    }
    while i < args.len()
        invariant
            i <= args@.len(),
            out@ == join_spaces(views(args@.subrange(0, i as int))),
        decreases args@.len() - i,
    {
        let ghost prefix = views(args@.subrange(0, i as int));
        if i > 0 {
            out.push(' ');
        }
        out.append(args[i].as_str());
        proof {
            lemma_join_spaces_push(prefix, args@[i as int]@);
            assert(views(args@.subrange(0, i as int + 1)) =~= prefix.push(args@[i as int]@));
            if i > 0 {
                assert(prefix.len() == i);
                assert((join_spaces(prefix).push(' ')) + args@[i as int]@ =~= join_spaces(prefix)
                    + seq![' '] + args@[i as int]@);
            }
        }
        i += 1;
    }
    proof {
        assert(args@.subrange(0, args@.len() as int) =~= args@);
    }
    out.push('\n');
    (out, false)
}

/// The builtin `pwd`: emits the working directory handed in by the
/// driver as one line, and fails when none could be determined.
pub fn pwd(cwd: &Option<String>) -> (r: Result<(String, bool), String>)
    ensures
        cwd matches Some(p) ==> (r matches Ok(ob) && ob.0@ == p@.push('\n') && ob.1 == false),
        cwd is None ==> (r matches Err(e) && e@ == "error in pwd"@),
{
    match cwd {
        Some(p) => {
            let mut out = p.clone();
            out.push('\n');
            Ok((out, false))
        },
        None => Err("error in pwd".to_owned()),
    }
}

/// What the builtin `cd` asks the driver to do: nothing, or a change
/// of working directory with the diagnostic to print if it fails.
#[derive(Debug, PartialEq, Eq)]
pub enum CdRequest {
    Stay,
    Go { target: String, diag: String },
}

/// The diagnostic printed when changing the working directory fails.
pub open spec fn cd_diag(arg: Seq<char>) -> Seq<char> {
    "cd: "@ + arg + ": No such file or directory\n"@
}

/// The builtin `cd`: with no argument it is a no-op; `~` resolves the
/// home directory handed in by the driver and fails when there is
/// none; any other argument is taken as a literal path. A failed
/// directory change is a diagnostic, never an error, so the request
/// carries the diagnostic along with the target.
pub fn cd(args: &[String], home: &Option<String>) -> (r: Result<(CdRequest, bool), String>)
    ensures
        args@.len() == 0 ==> (r matches Ok(ob) && ob.0 is Stay && ob.1 == false),
        (args@.len() > 0 && args@[0]@ == "~"@ && home is None) ==> (r matches Err(e) && e@
            == "$HOME is not set"@),
        (args@.len() > 0 && args@[0]@ == "~"@) ==> (home matches Some(h) ==> (r matches Ok(ob)
            && ob.0 matches CdRequest::Go { target, diag } && target@ == h@ && diag@ == cd_diag(
            args@[0]@,
        ) && ob.1 == false)),
        (args@.len() > 0 && args@[0]@ != "~"@) ==> (r matches Ok(ob) && ob.0
            matches CdRequest::Go { target, diag } && target@ == args@[0]@ && diag@ == cd_diag(
            args@[0]@,
        ) && ob.1 == false),
{
    if args.len() == 0 {
        return Ok((CdRequest::Stay, false));
    }
    let mut diag = "cd: ".to_owned();
    diag.append(args[0].as_str());
    diag.append(": No such file or directory\n");
    if str_eq(args[0].as_str(), "~") {
        match home {
            None => Err("$HOME is not set".to_owned()),
            Some(h) => Ok((CdRequest::Go { target: h.clone(), diag }, false)),
        }
    } else {
        Ok((CdRequest::Go { target: args[0].clone(), diag }, false))
    }
}

/// The builtin `type`: reports a builtin name as such, and otherwise
/// reports the resolved path the driver found for the name, or that
/// the name was not found.
pub fn type_cmd(args: &[String], resolved: &Option<String>) -> (r: Result<(String, bool), String>)
    ensures
        args@.len() == 0 ==> (r matches Err(e) && e@ == "type requires an argument\n"@),
        (args@.len() > 0 && is_builtin_name(args@[0]@)) ==> (r matches Ok(ob) && ob.0@ == args@[0]@
            + " is a shell builtin\n"@ && ob.1 == false),
        (args@.len() > 0 && !is_builtin_name(args@[0]@)) ==> (match resolved {
            Some(p) => r matches Ok(ob) && ob.0@ == args@[0]@ + " is "@ + p@ + "\n"@ && ob.1
                == false,
            None => r matches Ok(ob) && ob.0@ == args@[0]@ + ": not found\n"@ && ob.1 == false,
        }),
{
    if args.len() == 0 {
        return Err("type requires an argument\n".to_owned());
    }
    let mut out = args[0].clone();
    if is_builtin(args[0].as_str()) {
        out.append(" is a shell builtin\n");
        return Ok((out, false));
    }
    match resolved {
        Some(p) => {
            out.append(" is ");
            out.append(p.as_str());
            out.append("\n");
            Ok((out, false))
        },
        None => {
            out.append(": not found\n");
            Ok((out, false))
        },
    }
}

/// A directory joined with a file name by the path separator; a
/// trailing separator on the directory is not doubled, and an empty
/// directory entry leaves the bare name.
pub open spec fn path_join(dir: Seq<char>, name: Seq<char>) -> Seq<char> {
    if dir.len() == 0 {
        name
    } else if dir.last() == '/' {
        dir + name
    } else {
        dir + seq!['/'] + name
    }
}

/// Builds the candidate path for a command name inside one directory.
pub fn join_path(dir: &String, name: &String) -> (r: String)
    ensures
        r@ == path_join(dir@, name@),
{
    let dn = dir.as_str().unicode_len();
    if dn == 0 {
        return name.clone();
    }
    let mut out = dir.clone();
    if dir.as_str().get_char(dn - 1) != '/' {
        out.push('/');
        proof {
            assert(dir@.push('/') =~= dir@ + seq!['/']);
        }
    }
    out.append(name.as_str());
    out
}

/// The position of the first directory that holds the command, if any.
pub open spec fn first_hit(hits: Seq<bool>) -> Option<int>
    decreases hits.len(),
{
    if hits.len() == 0 {
        None
    } else if hits[0] {
        Some(0)
    } else {
        match first_hit(hits.drop_first()) {
            Some(i) => Some(i + 1),
            None => None,
        }
    }
}

/// Resolution prefers the earliest listed directory: the first hit is
/// a hit, every directory before it is a miss, and when there is no
/// first hit no directory holds the command at all.
pub proof fn lemma_first_hit_is_earliest(hits: Seq<bool>)
    ensures
        match first_hit(hits) {
            Some(i) => 0 <= i < hits.len() && hits[i] && (forall|j: int| 0 <= j < i ==> !hits[j]),
            None => forall|j: int| 0 <= j < hits.len() ==> !hits[j],
        },
    decreases hits.len(),
{
    if hits.len() == 0 {
    } else if hits[0] {
    } else {
        lemma_first_hit_is_earliest(hits.drop_first());
        match first_hit(hits.drop_first()) {
            Some(i0) => {
                assert(hits.drop_first()[i0] == hits[i0 + 1]);
                assert forall|j: int| 0 <= j < i0 + 1 implies !hits[j] by {
                    if j > 0 {
                        assert(hits.drop_first()[j - 1] == hits[j]);
                    }
                }
            },
            None => {
                assert forall|j: int| 0 <= j < hits.len() implies !hits[j] by {
                    if j > 0 {
                        assert(hits.drop_first()[j - 1] == hits[j]);
                    }
                }
            },
        }
    }
}

/// The search-path resolver's decision: given the listed directories
/// and, for each, whether it holds a regular file of the command's
/// name, returns the candidate path from the first directory that
/// does. The filesystem checks themselves are the driver's.
pub fn find_command_exe(name: &String, dirs: &Vec<String>, hits: &Vec<bool>) -> (r: Option<
    String,
>)
    requires
        dirs@.len() == hits@.len(),
    ensures
        match first_hit(hits@) {
            Some(i) => r matches Some(p) && p@ == path_join(dirs@[i]@, name@),
            None => r is None,
        },
{
    let mut i: usize = 0;
    while i < dirs.len()
        invariant
            dirs@.len() == hits@.len(),
            i <= dirs@.len(),
            forall|j: int| 0 <= j < i ==> !hits@[j],
        decreases dirs@.len() - i,
    {
        if hits[i] {
            proof {
                lemma_first_hit_is_earliest(hits@);
            }
            return Some(join_path(&dirs[i], name));
        }
        i += 1;
    }
    proof {
        lemma_first_hit_is_earliest(hits@);
    }
    None
}

} // verus!
