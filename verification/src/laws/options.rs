//! The command line: each flag sets what it names.

use super::texts::splits_are_at_the_first;
use crate::options::{
    at_commas, command, defaults, flags_read, listed_workspaces, settled, value_of, CommandView,
    OptionsView,
};
use crate::text::{split_first, trimmed};
use vstd::prelude::*;

verus! {

/// A flag that there is.
pub open spec fn known_flag(flag: Seq<char>) -> bool {
    ||| flag == "--instance"@
    ||| flag == "--token-env"@
    ||| flag == "--username-env"@
    ||| flag == "--cache"@
    ||| flag == "--workspace"@
}

/// The first flag that is not known, among those that stand at every other place.
pub open spec fn first_unknown(args: Seq<Seq<char>>, flag: Seq<char>, j: int) -> bool {
    &&& 0 <= j < args.len() && j % 2 == 0 && args[j] == flag && !known_flag(flag)
    &&& forall|k: int| 0 <= k < j && k % 2 == 0 ==> known_flag(#[trigger] args[k])
}

/// What stands behind the flag at a place: the next argument, and nothing behind
/// the last one.
pub open spec fn behind(args: Seq<Seq<char>>, i: int) -> Seq<char> {
    if i + 1 < args.len() {
        args[i + 1]
    } else {
        Seq::empty()
    }
}

/// The last flag of a name among those that stand at every other place, or none.
pub open spec fn last_flag(args: Seq<Seq<char>>, flag: Seq<char>, i: int) -> bool {
    &&& i == -2 || (0 <= i < args.len() && i % 2 == 0 && args[i] == flag)
    &&& forall|j: int| i < j < args.len() && 0 <= j && j % 2 == 0 ==> #[trigger] args[j] != flag
}

/// A setting is what stands behind the last flag of its name, and what it was
/// before where there is no such flag.
pub open spec fn set_last(
    args: Seq<Seq<char>>,
    flag: Seq<char>,
    before: Seq<char>,
    after: Seq<char>,
) -> bool {
    forall|i: int|
        #[trigger] last_flag(args, flag, i) ==> after == if i < 0 {
            before
        } else {
            behind(args, i)
        }
}

proof fn flags_differ()
    ensures
        "--instance"@ != "--token-env"@,
        "--instance"@ != "--username-env"@,
        "--instance"@ != "--cache"@,
        "--instance"@ != "--workspace"@,
        "--token-env"@ != "--username-env"@,
        "--token-env"@ != "--cache"@,
        "--token-env"@ != "--workspace"@,
        "--username-env"@ != "--cache"@,
        "--username-env"@ != "--workspace"@,
        "--cache"@ != "--workspace"@,
{
    reveal_strlit("--instance");
    reveal_strlit("--token-env");
    reveal_strlit("--username-env");
    reveal_strlit("--cache");
    reveal_strlit("--workspace");
    assert("--instance"@.len() == 10 && "--token-env"@.len() == 11 && "--username-env"@.len() == 14
        && "--cache"@.len() == 7 && "--workspace"@.len() == 11);
    assert("--token-env"@[2] == 't' && "--workspace"@[2] == 'w');
}

/// The settings that flags leave.
pub open spec fn settles(args: Seq<Seq<char>>, o: OptionsView, r: OptionsView) -> bool {
    &&& set_last(args, "--instance"@, o.instance, r.instance)
    &&& set_last(args, "--token-env"@, o.token_env, r.token_env)
    &&& set_last(args, "--username-env"@, o.username_env, r.username_env)
    &&& forall|i: int|
        #[trigger] last_flag(args, "--cache"@, i) ==> r.cache_base == if i < 0 {
            o.cache_base
        } else if i + 1 < args.len() {
            Some(args[i + 1])
        } else {
            None
        }
}

proof fn flags_settle(o: OptionsView, args: Seq<Seq<char>>)
    ensures
        !(flags_read(o, args) is Version),
        flags_read(o, args) matches CommandView::Serve(r) ==> settles(args, o, r),
        flags_read(o, args) is Serve <==> forall|j: int|
            0 <= j < args.len() && j % 2 == 0 ==> known_flag(#[trigger] args[j]),
    decreases args.len(),
{
    flags_differ();
    if args.len() > 0 {
        let value = value_of(args);
        let rest = if args.len() > 1 {
            args.skip(2)
        } else {
            Seq::empty()
        };
        let p = if args[0] == "--instance"@ {
            OptionsView { instance: value, ..o }
        } else if args[0] == "--token-env"@ {
            OptionsView { token_env: value, ..o }
        } else if args[0] == "--username-env"@ {
            OptionsView { username_env: value, ..o }
        } else if args[0] == "--cache"@ {
            let cache_base = if args.len() > 1 {
                Some(args[1])
            } else {
                None
            };
            OptionsView { cache_base, ..o }
        } else {
            OptionsView { workspaces: o.workspaces.push(value), ..o }
        };
        flags_settle(p, rest);
        assert forall|j: int| 0 <= j < rest.len() implies #[trigger] rest[j] == args[j + 2] by {}
        if known_flag(args[0]) {
            assert(flags_read(o, args) == flags_read(p, rest));
            assert forall|j: int| 0 <= j < args.len() && j % 2 == 0 && (forall|k: int|
                0 <= k < rest.len() && k % 2 == 0 ==> known_flag(
                    #[trigger] rest[k],
                )) implies known_flag(#[trigger] args[j]) by {
                if j > 0 {
                    assert(rest[j - 2] == args[j]);
                }
            }
            assert forall|k: int| 0 <= k < rest.len() && k % 2 == 0 && (forall|j: int|
                0 <= j < args.len() && j % 2 == 0 ==> known_flag(
                    #[trigger] args[j],
                )) implies known_flag(#[trigger] rest[k]) by {
                assert(known_flag(args[k + 2]));
            }
            if let CommandView::Serve(r) = flags_read(o, args) {
                assert forall|flag: Seq<char>, i: int| #[trigger]
                    last_flag(args, flag, i) implies ({
                    &&& i > 0 ==> last_flag(rest, flag, i - 2) && behind(rest, i - 2) == behind(
                        args,
                        i,
                    )
                    &&& i == 0 ==> last_flag(rest, flag, -2) && args[0] == flag
                    &&& i < 0 ==> last_flag(rest, flag, -2) && args[0] != flag
                }) by {
                    if i > 0 {
                        assert(rest[i - 2] == args[i]);
                    }
                    let b = if i > 0 {
                        i - 2
                    } else {
                        -2
                    };
                    assert forall|j: int|
                        b < j < rest.len() && 0 <= j && j % 2 == 0 implies #[trigger] rest[j]
                        != flag by {
                        assert(args[j + 2] != flag);
                    }
                }
                assert forall|i: int| #[trigger]
                    last_flag(args, "--cache"@, i) implies r.cache_base == if i < 0 {
                    o.cache_base
                } else if i + 1 < args.len() {
                    Some(args[i + 1])
                } else {
                    None
                } by {
                    if i > 0 {
                        assert(last_flag(rest, "--cache"@, i - 2));
                    }
                }
            }
        }
    }
}

proof fn unknown_flags_are_first(o: OptionsView, args: Seq<Seq<char>>) -> (j: int)
    ensures
        flags_read(o, args) matches CommandView::Unknown(flag) ==> first_unknown(args, flag, j),
    decreases args.len(),
{
    if args.len() == 0 || !known_flag(args[0]) {
        0
    } else {
        let value = value_of(args);
        let rest = if args.len() > 1 {
            args.skip(2)
        } else {
            Seq::empty()
        };
        let p = if args[0] == "--instance"@ {
            OptionsView { instance: value, ..o }
        } else if args[0] == "--token-env"@ {
            OptionsView { token_env: value, ..o }
        } else if args[0] == "--username-env"@ {
            OptionsView { username_env: value, ..o }
        } else if args[0] == "--cache"@ {
            let cache_base = if args.len() > 1 {
                Some(args[1])
            } else {
                None
            };
            OptionsView { cache_base, ..o }
        } else {
            OptionsView { workspaces: o.workspaces.push(value), ..o }
        };
        flags_differ();
        let j = unknown_flags_are_first(p, rest);
        assert(flags_read(o, args) == flags_read(p, rest));
        if let CommandView::Unknown(flag) = flags_read(o, args) {
            assert forall|k: int| 0 <= k < j + 2 && k % 2 == 0 implies known_flag(
                #[trigger] args[k],
            ) by {
                if k > 0 {
                    assert(rest[k - 2] == args[k]);
                    assert(known_flag(rest[k - 2]));
                }
            }
            assert(rest[j] == args[j + 2]);
        }
        j + 2
    }
}

/// The arguments of a command line.
pub open spec fn arguments(args: Seq<Seq<char>>) -> Seq<Seq<char>> {
    if args.len() > 0 {
        args.drop_first()
    } else {
        args
    }
}

/// A command line that asks for the version anywhere gets nothing else. Otherwise
/// the arguments behind the program are flags with a value each: where all of
/// them are known each setting is what stands behind the last flag of its name,
/// and where there is no such flag it is the default; where one is not known, the
/// answer names the first such flag.
pub proof fn flags_set_what_they_name(args: Seq<Seq<char>>)
    ensures
        command(args) is Version <==> args.contains("--version"@) || args.contains("-V"@),
        command(args) matches CommandView::Serve(o) ==> {
            let set = arguments(args);
            &&& set_last(set, "--instance"@, "https://api.bitbucket.org"@, o.instance)
            &&& set_last(set, "--token-env"@, "BITBUCKET_TOKEN"@, o.token_env)
            &&& set_last(set, "--username-env"@, "BITBUCKET_USERNAME"@, o.username_env)
            &&& forall|i: int|
                #[trigger] last_flag(set, "--cache"@, i) ==> o.cache_base == if i < 0 || i + 1
                    >= set.len() {
                    None
                } else {
                    Some(set[i + 1])
                }
        },
        command(args) is Serve <==> !(command(args) is Version) && forall|j: int|
            0 <= j < arguments(args).len() && j % 2 == 0 ==> known_flag(
                #[trigger] arguments(args)[j],
            ),
        command(args) matches CommandView::Unknown(flag) ==> exists|j: int| #[trigger]
            first_unknown(arguments(args), flag, j),
{
    flags_settle(defaults(), arguments(args));
    let j = unknown_flags_are_first(defaults(), arguments(args));
    assert(command(args) matches CommandView::Unknown(flag) ==> first_unknown(
        arguments(args),
        flag,
        j,
    ));
    assert(flags_read(defaults(), Seq::empty()) == CommandView::Serve(
        defaults(),
    ));
}

proof fn workspaces_add_up(o: OptionsView, args: Seq<Seq<char>>, value: Seq<char>)
    requires
        args.len() % 2 == 0,
    ensures
        ({
            let more = args + seq!["--workspace"@, value];
            &&& flags_read(o, args) matches CommandView::Serve(r) ==> flags_read(o, more)
                == CommandView::Serve(
                OptionsView { workspaces: r.workspaces.push(value), ..r },
            )
            &&& flags_read(o, args) is Unknown ==> flags_read(o, more) == flags_read(o, args)
        }),
    decreases args.len(),
{
    flags_differ();
    let more = args + seq!["--workspace"@, value];
    if args.len() == 0 {
        assert(more[0] == "--workspace"@ && more[1] == value);
        assert(more.skip(2) =~= Seq::<Seq<char>>::empty());
        let p = OptionsView { workspaces: o.workspaces.push(value), ..o };
        assert(flags_read(p, more.skip(2)) == CommandView::Serve(p));
    } else {
        assert(args.len() > 1);
        assert(more[0] == args[0] && more[1] == args[1]);
        assert(more.skip(2) =~= args.skip(2) + seq!["--workspace"@, value]);
        let rest = args.skip(2);
        workspaces_add_up(OptionsView { instance: args[1], ..o }, rest, value);
        workspaces_add_up(OptionsView { token_env: args[1], ..o }, rest, value);
        workspaces_add_up(OptionsView { username_env: args[1], ..o }, rest, value);
        workspaces_add_up(OptionsView { cache_base: Some(args[1]), ..o }, rest, value);
        workspaces_add_up(
            OptionsView { workspaces: o.workspaces.push(args[1]), ..o },
            rest,
            value,
        );
    }
}

/// Each workspace that is given is one more to serve, behind those before it;
/// nothing else adds to them.
pub proof fn workspaces_are_given_one_by_one(
    program: Seq<char>,
    args: Seq<Seq<char>>,
    value: Seq<char>,
)
    requires
        args.len() % 2 == 0,
        !(command(seq![program] + args) is Version),
        !(command(seq![program] + args + seq!["--workspace"@, value]) is Version),
    ensures
        ({
            let before = command(seq![program] + args);
            let after = command(seq![program] + args + seq!["--workspace"@, value]);
            &&& before matches CommandView::Serve(o) ==> after == CommandView::Serve(
                OptionsView { workspaces: o.workspaces.push(value), ..o },
            )
            &&& before is Unknown ==> after == before
        }),
        command(seq![program]) matches CommandView::Serve(o) ==> o.workspaces.len() == 0,
{
    assert((seq![program] + args).drop_first() =~= args);
    assert((seq![program] + args + seq!["--workspace"@, value]).drop_first() =~= args + seq![
        "--workspace"@,
        value,
    ]);
    workspaces_add_up(defaults(), args, value);
    assert(seq![program].drop_first() =~= Seq::<Seq<char>>::empty());
}

proof fn commas_part(a: Seq<char>, b: Seq<char>)
    ensures
        at_commas(a + seq![','] + b) == at_commas(a) + at_commas(b),
    decreases a.len(),
{
    let whole = a + seq![','] + b;
    splits_are_at_the_first(a, ',', a, b);
    splits_are_at_the_first(whole, ',', a, b);
    match split_first(a, ',') {
        None => {
            assert(split_first(whole, ',') == Some((a, b)));
            assert(at_commas(whole) =~= seq![a] + at_commas(b));
        },
        Some((part, rest)) => {
            let more = rest + seq![','] + b;
            assert(whole =~= part + seq![','] + more);
            splits_are_at_the_first(whole, ',', part, more);
            assert(a.len() == part.len() + 1 + rest.len());
            commas_part(rest, b);
            assert(at_commas(whole) =~= seq![part] + (at_commas(rest) + at_commas(b)));
            assert(at_commas(a) + at_commas(b) =~= seq![part] + (at_commas(rest) + at_commas(b)));
        },
    }
}

/// A list between commas names what its parts name, one after another. A part
/// without a comma names itself without the white space around it, and nothing
/// where that is all of it.
pub proof fn lists_name_what_stands_between_commas(a: Seq<char>, b: Seq<char>)
    ensures
        listed_workspaces(a + seq![','] + b) == listed_workspaces(a) + listed_workspaces(b),
        !a.contains(',') && trimmed(a).len() > 0 ==> listed_workspaces(a) == seq![trimmed(a)],
        !a.contains(',') && trimmed(a).len() == 0 ==> listed_workspaces(a).len() == 0,
{
    let trim = |part: Seq<char>| trimmed(part);
    let named = |part: Seq<char>| part.len() > 0;
    commas_part(a, b);
    let (x, y) = (at_commas(a), at_commas(b));
    assert((x + y).map_values(trim) =~= x.map_values(trim) + y.map_values(trim));
    Seq::filter_distributes_over_add(x.map_values(trim), y.map_values(trim), named);
    splits_are_at_the_first(a, ',', a, b);
    if !a.contains(',') {
        let none = Seq::<Seq<char>>::empty();
        assert(at_commas(a) =~= seq![a]);
        assert(seq![a].map_values(trim) =~= none.push(trimmed(a)));
        none.lemma_filter_push(trimmed(a), named);
        assert(none.filter(named) =~= none);
        assert(none.push(trimmed(a)) =~= seq![trimmed(a)]);
    }
}

/// What the environment lists counts only where the command line names no
/// workspace, and changes nothing but the workspaces.
pub proof fn the_command_line_comes_first(o: OptionsView, list: Seq<char>, none: Seq<char>)
    requires
        none.len() == 0,
    ensures
        o.workspaces.len() > 0 ==> settled(o, Some(list)) == o && settled(o, None) == o,
        o.workspaces.len() == 0 ==> {
            &&& settled(o, Some(list)).workspaces == listed_workspaces(list)
            &&& settled(o, None).workspaces.len() == 0
            &&& settled(o, Some(none)).workspaces.len() == 0
        },
        settled(o, Some(list)).instance == o.instance,
        settled(o, Some(list)).token_env == o.token_env,
        settled(o, Some(list)).username_env == o.username_env,
        settled(o, Some(list)).cache_base == o.cache_base,
        settled(settled(o, Some(list)), Some(list)) == settled(o, Some(list)),
{
    assert(trimmed(none).len() == 0);
    lists_name_what_stands_between_commas(none, none);
}

}
