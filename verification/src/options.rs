//! The command line: where the instance is, which environment variables hold
//! the credentials, where the cache is, and which workspaces to serve.

use crate::api::{DEFAULT_INSTANCE, DEFAULT_TOKEN_ENV, DEFAULT_USERNAME_ENV};
use crate::text::{self, before_first_is_first, split_first, string_opt, texts, trimmed};
use vstd::prelude::*;

verus! {

/// What the command line sets.
#[derive(Debug)]
pub struct Options {
    pub instance: String,
    pub token_env: String,
    pub username_env: String,
    pub cache_base: Option<String>,
    pub workspaces: Vec<String>,
}

/// [`Options`] over plain sequences.
pub struct OptionsView {
    pub instance: Seq<char>,
    pub token_env: Seq<char>,
    pub username_env: Seq<char>,
    pub cache_base: Option<Seq<char>>,
    pub workspaces: Seq<Seq<char>>,
}

impl View for Options {
    type V = OptionsView;

    open spec fn view(&self) -> OptionsView {
        OptionsView {
            instance: self.instance@,
            token_env: self.token_env@,
            username_env: self.username_env@,
            cache_base: string_opt(self.cache_base),
            workspaces: texts(self.workspaces@),
        }
    }
}

/// What the command line asks for: the version, to serve, or nothing that is
/// known, with the flag that is not.
#[derive(Debug)]
pub enum Command {
    Version,
    Serve(Options),
    Unknown(String),
}

/// A [`Command`] over plain sequences.
pub enum CommandView {
    Version,
    Serve(OptionsView),
    Unknown(Seq<char>),
}

impl View for Command {
    type V = CommandView;

    open spec fn view(&self) -> CommandView {
        match self {
            Command::Version => CommandView::Version,
            Command::Serve(o) => CommandView::Serve(o@),
            Command::Unknown(flag) => CommandView::Unknown(flag@),
        }
    }
}

/// What holds where the command line sets nothing.
pub open spec fn defaults() -> OptionsView {
    OptionsView {
        instance: DEFAULT_INSTANCE@,
        token_env: DEFAULT_TOKEN_ENV@,
        username_env: DEFAULT_USERNAME_ENV@,
        cache_base: None,
        workspaces: Seq::empty(),
    }
}

/// The value behind a flag; where there is none it is empty.
pub open spec fn value_of(args: Seq<Seq<char>>) -> Seq<char> {
    if args.len() > 1 {
        args[1]
    } else {
        Seq::empty()
    }
}

/// The flags are read in order, each with its value. `--workspace` may be given
/// more than once; of the others the last one counts.
pub open spec fn flags_read(o: OptionsView, args: Seq<Seq<char>>) -> CommandView
    decreases args.len(),
{
    if args.len() == 0 {
        CommandView::Serve(o)
    } else {
        let value = value_of(args);
        let rest = if args.len() > 1 {
            args.skip(2)
        } else {
            Seq::empty()
        };
        if args[0] == "--instance"@ {
            flags_read(OptionsView { instance: value, ..o }, rest)
        } else if args[0] == "--token-env"@ {
            flags_read(OptionsView { token_env: value, ..o }, rest)
        } else if args[0] == "--username-env"@ {
            flags_read(OptionsView { username_env: value, ..o }, rest)
        } else if args[0] == "--cache"@ {
            let cache_base = if args.len() > 1 {
                Some(args[1])
            } else {
                None
            };
            flags_read(OptionsView { cache_base, ..o }, rest)
        } else if args[0] == "--workspace"@ {
            flags_read(OptionsView { workspaces: o.workspaces.push(value), ..o }, rest)
        } else {
            CommandView::Unknown(args[0])
        }
    }
}

/// A command line asks for the version.
pub open spec fn asks_version(args: Seq<Seq<char>>) -> bool {
    args.contains("--version"@) || args.contains("-V"@)
}

/// What a command line asks for; the first argument is the program itself.
pub open spec fn command(args: Seq<Seq<char>>) -> CommandView {
    if asks_version(args) {
        CommandView::Version
    } else if args.len() == 0 {
        CommandView::Serve(defaults())
    } else {
        flags_read(defaults(), args.drop_first())
    }
}

fn wants_version(args: &Vec<String>) -> (r: bool)
    ensures
        r == asks_version(texts(args@)),
{
    let ghost all = texts(args@);
    let mut i: usize = 0;
    while i < args.len()
        invariant
            i <= args@.len(),
            all == texts(args@),
            forall|k: int| 0 <= k < i ==> all[k] != "--version"@ && all[k] != "-V"@,
        decreases args@.len() - i,
    {
        let arg = args[i].as_str();
        assert(all[i as int] == arg@);
        if text::same(arg, "--version") || text::same(arg, "-V") {
            return true;
        }
        i += 1;
    }
    false
}

impl Command {
    /// Reads a command line; the first argument is the program itself.
    pub fn parse(args: &Vec<String>) -> (r: Command)
        ensures
            r@ == command(texts(args@)),
    {
        if wants_version(args) {
            return Command::Version;
        }
        let ghost all = texts(args@);
        let mut o = Options {
            instance: DEFAULT_INSTANCE.to_owned(),
            token_env: DEFAULT_TOKEN_ENV.to_owned(),
            username_env: DEFAULT_USERNAME_ENV.to_owned(),
            cache_base: None,
            workspaces: Vec::new(),
        };
        assert(o@.workspaces =~= Seq::empty());
        let count: usize = args.len();
        let mut i: usize = 1;
        if count > 0 {
            assert(all.skip(1) =~= all.drop_first());
        } else {
            return Command::Serve(o);
        }
        while i < count
            invariant
                1 <= i <= count == args@.len(),
                all == texts(args@),
                command(all) == flags_read(o@, all.skip(i as int)),
            decreases count - i,
        {
            let flag = args[i].as_str();
            let given = i + 1 < count;
            let value = if given {
                args[i + 1].clone()
            } else {
                String::new()
            };
            let ghost left = all.skip(i as int);
            let ghost workspaces = o@.workspaces;
            let step: usize = if given {
                2
            } else {
                1
            };
            proof {
                assert(left[0] == flag@);
                assert(value_of(left) == value@) by {
                    if given {
                        assert(left[1] == all[i + 1]);
                    }
                }
                if given {
                    assert(left.skip(2) =~= all.skip(i + step));
                } else {
                    assert(all.skip(i + step) =~= Seq::<Seq<char>>::empty());
                }
            }
            if text::same(flag, "--instance") {
                o.instance = value;
            } else if text::same(flag, "--token-env") {
                o.token_env = value;
            } else if text::same(flag, "--username-env") {
                o.username_env = value;
            } else if text::same(flag, "--cache") {
                o.cache_base = if given {
                    Some(value)
                } else {
                    None
                };
            } else if text::same(flag, "--workspace") {
                o.workspaces.push(value);
                assert(o@.workspaces =~= workspaces.push(value@));
            } else {
                return Command::Unknown(flag.to_owned());
            }
            i += step;
        }
        assert(all.skip(i as int) =~= Seq::empty());
        Command::Serve(o)
    }
}

/// A list at every comma.
pub open spec fn at_commas(list: Seq<char>) -> Seq<Seq<char>>
    decreases list.len(),
{
    match split_first(list, ',') {
        Some((part, rest)) => {
            proof {
                before_first_is_first(list, ',');
            }
            seq![part] + at_commas(rest)
        },
        None => seq![list],
    }
}

/// The workspaces that a list between commas names, without the white space
/// around them; what is empty names none.
pub open spec fn listed_workspaces(list: Seq<char>) -> Seq<Seq<char>> {
    at_commas(list).map_values(|part: Seq<char>| trimmed(part)).filter(
        |part: Seq<char>| part.len() > 0,
    )
}

fn keep_workspace(out: &mut Vec<String>, part: &str)
    ensures
        texts(final(out)@) == if trimmed(part@).len() > 0 {
            texts(old(out)@).push(trimmed(part@))
        } else {
            texts(old(out)@)
        },
{
    let ghost before = texts(out@);
    let name = text::trim(part);
    if !name.as_str().is_empty() {
        out.push(name);
        assert(texts(out@) =~= before.push(name@));
    }
}

/// The workspaces that a list between commas names.
pub fn parse_workspaces(list: &str) -> (r: Vec<String>)
    ensures
        texts(r@) == listed_workspaces(list@),
{
    let ghost trim = |part: Seq<char>| trimmed(part);
    let ghost named = |part: Seq<char>| part.len() > 0;
    let mut out: Vec<String> = Vec::new();
    let mut rest = list.to_owned();
    let ghost mut done: Seq<Seq<char>> = Seq::empty();
    assert(texts(out@) =~= done.map_values(trim).filter(named));
    assert(done + at_commas(rest@) =~= at_commas(list@));
    loop
        invariant
            trim == (|part: Seq<char>| trimmed(part)),
            named == (|part: Seq<char>| part.len() > 0),
            done + at_commas(rest@) == at_commas(list@),
            texts(out@) == done.map_values(trim).filter(named),
        decreases rest@.len(),
    {
        let ghost parts0 = done.map_values(trim);
        match text::split_once(rest.as_str(), ',') {
            Some((part, after)) => {
                proof {
                    before_first_is_first(rest@, ',');
                    let more = done.push(part@);
                    assert(more.map_values(trim) =~= parts0.push(trim(part@)));
                    parts0.lemma_filter_push(trim(part@), named);
                    assert(more + at_commas(after@) =~= done + at_commas(rest@));
                    done = more;
                }
                keep_workspace(&mut out, part.as_str());
                rest = after;
            },
            None => {
                proof {
                    let more = done.push(rest@);
                    assert(more.map_values(trim) =~= parts0.push(trim(rest@)));
                    parts0.lemma_filter_push(trim(rest@), named);
                    assert(more =~= done + at_commas(rest@));
                }
                keep_workspace(&mut out, rest.as_str());
                return out;
            },
        }
    }
}

/// The workspaces to serve: those of the command line, otherwise those that the
/// environment lists.
pub open spec fn settled(o: OptionsView, listed: Option<Seq<char>>) -> OptionsView {
    OptionsView {
        workspaces: if o.workspaces.len() > 0 {
            o.workspaces
        } else {
            match listed {
                Some(list) => listed_workspaces(list),
                None => Seq::empty(),
            }
        },
        ..o
    }
}

impl Options {
    /// The workspaces to serve: those of the command line, otherwise those that
    /// the environment lists.
    pub fn settle_workspaces(self, listed: Option<String>) -> (r: Options)
        ensures
            r@ == settled(self@, string_opt(listed)),
    {
        assert(self@.workspaces.len() == self.workspaces@.len());
        let mut o = self;
        if o.workspaces.is_empty() {
            if let Some(list) = listed {
                o.workspaces = parse_workspaces(list.as_str());
            }
            assert(o@.workspaces.len() == o.workspaces@.len());
            assert(self@.workspaces =~= Seq::empty());
        }
        o
    }
}

}
