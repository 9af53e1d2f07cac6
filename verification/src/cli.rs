//! Subcommand dispatch and the text joining that backs `echo`, `cat` and `ls`.

use vstd::prelude::*;

verus! {

/// The fixed set of subcommands the toolkit understands.
#[derive(Clone, Copy, Debug, PartialEq, Eq, Structural)]
pub enum Subcommand {
    Echo,
    Cat,
    Ls,
    Tree,
    Grep,
}

/// Which subcommand a command-line name selects, if any.
pub open spec fn spec_parse_subcommand(name: Seq<char>) -> Option<Subcommand> {
    if name == "echo"@ {
        Some(Subcommand::Echo)
    } else if name == "cat"@ {
        Some(Subcommand::Cat)
    } else if name == "ls"@ {
        Some(Subcommand::Ls)
    } else if name == "tree"@ {
        Some(Subcommand::Tree)
    } else if name == "grep"@ {
        Some(Subcommand::Grep)
    } else {
        None
    }
}

/// Maps the first command-line argument to a subcommand; `None` stands for
/// an unknown name, which the caller treats as a fatal usage error.
pub fn parse_subcommand(name: &String) -> (r: Option<Subcommand>)
    ensures
        r == spec_parse_subcommand(name@),
{
    if name.eq(&String::from_str("echo")) {
        Some(Subcommand::Echo)
    } else if name.eq(&String::from_str("cat")) {
        Some(Subcommand::Cat)
    } else if name.eq(&String::from_str("ls")) {
        Some(Subcommand::Ls)
    } else if name.eq(&String::from_str("tree")) {
        Some(Subcommand::Tree)
    } else if name.eq(&String::from_str("grep")) {
        Some(Subcommand::Grep)
    } else {
        None
    }
}

/// How many arguments each subcommand accepts: `echo` and `cat` take any
/// number, `ls` and `tree` exactly one path, `grep` a pattern and a path.
/// `tree` requires its path rather than defaulting one: leaving the path
/// off has no well-defined meaning here, so it is rejected up front.
pub open spec fn spec_arg_count_ok(cmd: Subcommand, n: nat) -> bool {
    match cmd {
        Subcommand::Echo => true,
        Subcommand::Cat => true,
        Subcommand::Ls => n == 1,
        Subcommand::Tree => n == 1,
        Subcommand::Grep => n == 2,
    }
}

/// Whether `n` arguments are acceptable for `cmd`; a caller treats `false`
/// as a fatal usage error.
pub fn arg_count_ok(cmd: Subcommand, n: usize) -> (r: bool)
    ensures
        r == spec_arg_count_ok(cmd, n as nat),
{
    match cmd {
        Subcommand::Echo => true,
        Subcommand::Cat => true,
        Subcommand::Ls => n == 1,
        Subcommand::Tree => n == 1,
        Subcommand::Grep => n == 2,
    }
}

/// The parts joined in order with `sep` between consecutive parts.
pub open spec fn spec_join(parts: Seq<Seq<char>>, sep: Seq<char>) -> Seq<char>
    decreases parts.len(),
{
    if parts.len() == 0 {
        Seq::empty()
    } else if parts.len() == 1 {
        parts[0]
    } else {
        parts[0] + sep + spec_join(parts.drop_first(), sep)
    }
}

/// Joining splits off the last part: `join(p, sep) == join(p without last, sep) + sep + last`.
proof fn lemma_join_snoc(parts: Seq<Seq<char>>, sep: Seq<char>)
    requires
        parts.len() >= 2,
    ensures
        spec_join(parts, sep) == spec_join(parts.drop_last(), sep) + sep + parts.last(),
    decreases parts.len(),
{
    let df = parts.drop_first();
    let dl = parts.drop_last();
    if parts.len() == 2 {
        assert(dl =~= seq![parts[0]]);
        assert(df =~= seq![parts[1]]);
        assert(spec_join(dl, sep) == parts[0]);
        assert(spec_join(df, sep) == parts[1]);
        assert(spec_join(parts, sep) =~= spec_join(dl, sep) + sep + parts.last());
    } else {
        lemma_join_snoc(df, sep);
        assert(df.drop_last() =~= dl.drop_first());
        assert(df.last() == parts.last());
        assert(dl.len() >= 2 && dl[0] == parts[0]);
        assert(spec_join(dl, sep) == parts[0] + sep + spec_join(dl.drop_first(), sep));
        assert(spec_join(parts, sep) == parts[0] + sep + (spec_join(dl.drop_first(), sep) + sep
            + parts.last()));
        assert(spec_join(parts, sep) =~= spec_join(dl, sep) + sep + parts.last());
    }
}

/// Joins the parts in order, with `sep` between consecutive parts and
/// nothing before the first or after the last.
pub fn join_all(parts: &Vec<String>, sep: &str) -> (r: String)
    ensures
        r@ == spec_join(parts.deep_view(), sep@),
{
    let ghost dv = parts.deep_view();
    let mut out = String::new();
    let mut i: usize = 0;
    while i < parts.len()
        invariant
            i <= parts.len(),
            dv == parts.deep_view(),
            dv.len() == parts.len(),
            out@ == spec_join(dv.take(i as int), sep@),
        decreases parts.len() - i,
    {
        if i > 0 {
            out.append(sep);
        }
        out.append(parts[i].as_str());
        proof {
            let t = dv.take(i + 1 as int);
            if i == 0 {
                assert(t.len() == 1 && t[0] == dv[0]);
                assert(out@ =~= spec_join(t, sep@));
            } else {
                lemma_join_snoc(t, sep@);
                assert(t.drop_last() =~= dv.take(i as int));
                assert(t.last() == dv[i as int]);
            }
        }
        i = i + 1;
    }
    proof {
        assert(dv.take(parts.len() as int) =~= dv);
    }
    out
}

/// What `echo` prints (before the trailing newline): the arguments joined
/// by single spaces.
pub fn echo_output(args: &Vec<String>) -> (r: String)
    ensures
        r@ == spec_join(args.deep_view(), " "@),
{
    join_all(args, " ")
}

/// What `cat` prints (before the trailing newline): the file contents
/// concatenated with no separator.
pub fn cat_output(contents: &Vec<String>) -> (r: String)
    ensures
        r@ == spec_join(contents.deep_view(), Seq::empty()),
{
    let r = join_all(contents, "");
    proof {
        reveal_strlit("");
        assert(""@ =~= Seq::<char>::empty());
    }
    r
}

/// What `ls` prints (before the trailing newline): the entry names
/// concatenated with no separator.
pub fn ls_output(names: &Vec<String>) -> (r: String)
    ensures
        r@ == spec_join(names.deep_view(), Seq::empty()),
{
    let r = join_all(names, "");
    proof {
        reveal_strlit("");
        assert(""@ =~= Seq::<char>::empty());
    }
    r
}

} // verus!
