//! How the daemon is started: its arguments and the settings around it.

use vstd::prelude::*;

use crate::socket::{given, join, path_join};
use crate::text::{cat2, chars_of, quoted, quoted_text, same, text_of};

use vstd::string::*;

verus! {

/// What some arguments come to: the data directory that they name, if any, or
/// why they are not understood. The last directory that is named counts.
pub open spec fn arguments(args: Seq<String>, dir: Option<Seq<char>>) -> Result<
    Option<Seq<char>>,
    Seq<char>,
>
    decreases args.len(),
{
    if args.len() == 0 {
        Ok(dir)
    } else if args[0]@ == "--data-dir"@ {
        if args.len() == 1 {
            Err("--data-dir needs a path"@)
        } else {
            arguments(args.skip(2), Some(args[1]@))
        }
    } else {
        Err("unknown argument "@ + quoted_text(args[0]@))
    }
}

/// Reads the arguments.
pub fn parse_args(args: &Vec<String>) -> (r: Result<Option<String>, String>)
    ensures
        match r {
            Ok(dir) => arguments(args@, None) == Ok::<Option<Seq<char>>, Seq<char>>(
                crate::text::opt_view(dir),
            ),
            Err(e) => arguments(args@, None) == Err::<Option<Seq<char>>, Seq<char>>(e@),
        },
{
    let mut dir: Option<String> = None;
    let mut i: usize = 0;
    proof {
        assert(args@.skip(0) =~= args@);
    }
    while i < args.len()
        invariant
            i <= args.len(),
            arguments(args@, None) == arguments(
                args@.skip(i as int),
                crate::text::opt_view(dir),
            ),
        decreases args.len() - i,
    {
        let ghost rest = args@.skip(i as int);
        proof {
            assert(rest[0] == args@[i as int]);
        }
        if same(args[i].as_str(), "--data-dir") {
            if args.len() - i == 1 {
                return Err("--data-dir needs a path".to_owned());
            }
            proof {
                assert(rest[1] == args@[i + 1]);
                assert(rest.skip(2) =~= args@.skip(i + 2));
            }
            dir = Some(args[i + 1].clone());
            i = i + 2;
        } else {
            let q = quoted(args[i].as_str());
            return Err(cat2("unknown argument ", q.as_str()));
        }
    }
    Ok(dir)
}

/// Where the data lives: what the arguments say, else what is set, else the
/// user's own data directory.
pub open spec fn data_dir_of(
    cli: Option<Seq<char>>,
    kovee_data_dir: Option<&str>,
    xdg_data_home: Option<&str>,
    home: Option<&str>,
) -> Seq<char> {
    if cli is Some {
        cli->0
    } else if given(kovee_data_dir) {
        kovee_data_dir->0@
    } else if given(xdg_data_home) {
        path_join(xdg_data_home->0@, "kovee"@)
    } else if home is Some {
        path_join(home->0@, ".local/share/kovee"@)
    } else {
        ".kovee"@
    }
}

/// Where the data lives.
pub fn data_dir(
    cli_override: Option<String>,
    kovee_data_dir: Option<&str>,
    xdg_data_home: Option<&str>,
    home: Option<&str>,
) -> (r: String)
    ensures
        r@ == data_dir_of(
            crate::text::opt_view(cli_override),
            kovee_data_dir,
            xdg_data_home,
            home,
        ),
{
    if let Some(dir) = cli_override {
        return dir;
    }
    if let Some(dir) = kovee_data_dir {
        if !dir.is_empty() {
            return dir.to_owned();
        }
    }
    if let Some(xdg) = xdg_data_home {
        if !xdg.is_empty() {
            return join(xdg, "kovee");
        }
    }
    match home {
        Some(h) => join(h, ".local/share/kovee"),
        None => ".kovee".to_owned(),
    }
}

/// What a test build answers every send with.
#[derive(Debug)]
pub enum Egress {
    File(String),
    Body(String),
}

/// What a setting of the recording egress names.
pub open spec fn egress_outcome(spec: Option<&str>, r: Option<Egress>) -> bool {
    match r {
        None => !given(spec),
        Some(Egress::File(path)) => {
            &&& given(spec)
            &&& spec->0@[0] == '@'
            &&& path@ == spec->0@.skip(1)
        },
        Some(Egress::Body(body)) => {
            &&& given(spec)
            &&& spec->0@[0] != '@'
            &&& body@ == spec->0@
        },
    }
}

/// What the setting of a recorded egress means: none where it is not set, a
/// file behind a leading `@`, and the reply itself otherwise.
pub fn recording_egress(spec: Option<&str>) -> (r: Option<Egress>)
    ensures
        egress_outcome(spec, r),
{
    match spec {
        None => None,
        Some(s) => {
            let v = chars_of(s);
            if v.len() == 0 {
                None
            } else if v[0] == '@' {
                proof {
                    assert(v@.subrange(1, v@.len() as int) =~= v@.skip(1));
                }
                Some(Egress::File(text_of(&v, 1, v.len())))
            } else {
                Some(Egress::Body(s.to_owned()))
            }
        },
    }
}

/// The data directory is the one of the command line; without it that of the
/// daemon's own setting, of the data home, of the home, in this order, where an
/// empty setting counts as none; and without any the one beside the daemon.
pub proof fn a_data_dir_is_the_first_that_is_given(
    cli: Option<Seq<char>>,
    own: Option<&str>,
    xdg: Option<&str>,
    home: Option<&str>,
)
    ensures
        cli is Some ==> data_dir_of(cli, own, xdg, home) == cli->0,
        cli is None && own is Some && own->0@.len() > 0 ==> data_dir_of(cli, own, xdg, home)
            == own->0@,
        cli is None && (own is None || own->0@.len() == 0) && xdg is Some && xdg->0@.len() > 0
            && xdg->0@.last() != '/' ==> data_dir_of(cli, own, xdg, home) == xdg->0@ + "/kovee"@,
        cli is None && (own is None || own->0@.len() == 0) && (xdg is None || xdg->0@.len() == 0)
            && home is Some && home->0@.len() > 0 && home->0@.last() != '/' ==> data_dir_of(
            cli,
            own,
            xdg,
            home,
        ) == home->0@ + "/.local/share/kovee"@,
        cli is None && (own is None || own->0@.len() == 0) && (xdg is None || xdg->0@.len() == 0)
            && home is None ==> data_dir_of(cli, own, xdg, home) == ".kovee"@,
{
    reveal_strlit("/");
    reveal_strlit("kovee");
    reveal_strlit("/kovee");
    reveal_strlit(".local/share/kovee");
    reveal_strlit("/.local/share/kovee");
    assert("/"@ + "kovee"@ =~= "/kovee"@);
    assert("/"@ + ".local/share/kovee"@ =~= "/.local/share/kovee"@);
    if xdg is Some {
        assert(xdg->0@ + "/"@ + "kovee"@ =~= xdg->0@ + ("/"@ + "kovee"@));
    }
    if home is Some {
        assert(home->0@ + "/"@ + ".local/share/kovee"@ =~= home->0@ + ("/"@
            + ".local/share/kovee"@));
    }
}

/// The command line takes nothing but data directories, of which the last counts;
/// a directory that is not named and any other argument are refused.
pub proof fn the_last_data_dir_counts(args: Seq<String>, dir: Option<Seq<char>>)
    ensures
        args.len() == 0 ==> arguments(args, dir) == Ok::<Option<Seq<char>>, Seq<char>>(dir),
        args.len() > 0 && args[0]@ != "--data-dir"@ ==> arguments(args, dir) is Err,
        args.len() == 1 ==> arguments(args, dir) is Err,
        args.len() % 2 == 1 ==> arguments(args, dir) is Err,
        arguments(args, dir) is Ok && args.len() > 0 ==> arguments(args, dir)->Ok_0 == Some(
            args.last()@,
        ),
        arguments(args, dir) is Ok <==> args.len() % 2 == 0 && forall|i: int|
            0 <= i < args.len() && i % 2 == 0 ==> (#[trigger] args[i])@ == "--data-dir"@,
    decreases args.len(),
{
    if args.len() >= 2 {
        let rest = args.skip(2);
        the_last_data_dir_counts(rest, Some(args[1]@));
        assert(rest.len() > 0 ==> rest.last() == args.last());
        if args[0]@ == "--data-dir"@ {
            if forall|i: int|
                0 <= i < args.len() && i % 2 == 0 ==> (#[trigger] args[i])@ == "--data-dir"@ {
                assert forall|i: int| 0 <= i < rest.len() && i % 2 == 0 implies (
                #[trigger] rest[i])@ == "--data-dir"@ by {
                    assert(rest[i] == args[i + 2]);
                }
            }
            if forall|i: int|
                0 <= i < rest.len() && i % 2 == 0 ==> (#[trigger] rest[i])@ == "--data-dir"@ {
                assert forall|i: int| 0 <= i < args.len() && i % 2 == 0 implies (
                #[trigger] args[i])@ == "--data-dir"@ by {
                    if i >= 2 {
                        assert(args[i] == rest[i - 2]);
                    }
                }
            }
        }
    } else if args.len() == 1 {
        assert(args[0]@ == args[0]@);
    }
}

/// A setting that begins with an at sign names a file, without the sign; any
/// other is a body itself; an empty or missing one is neither.
pub proof fn an_egress_is_a_file_or_a_body(spec: Option<&str>, r: Option<Egress>)
    requires
        egress_outcome(spec, r),
    ensures
        r is None <==> spec is None || spec->0@.len() == 0,
        r is Some && spec->0@[0] == '@' ==> (r->0 matches Egress::File(p) && seq!['@'] + p@
            == spec->0@),
        r is Some && spec->0@[0] != '@' ==> (r->0 matches Egress::Body(b) && b@ == spec->0@),
{
    if r is Some && spec->0@[0] == '@' {
        assert(seq!['@'] + spec->0@.skip(1) =~= spec->0@);
    }
}

} // verus!
