//! What holds of shells: what is sent to them, which one is taken, and what is
//! kept of their history.
use vstd::prelude::*;

use crate::places;
use crate::shell;
use crate::shell::{ShellHistoryFormat, ShellKind};
use crate::text;
use crate::text_laws;
use crate::tree_row_laws;

verus! {

// ---------------------------------------------------------------------------
// Commands
// ---------------------------------------------------------------------------

/// An argument stands in single quotes; a single quote in it closes them, stands
/// in double quotes, and opens them again.
pub proof fn law_escaped(a: Seq<char>, b: Seq<char>)
    requires
        !a.contains('\''),
        !b.contains('\''),
    ensures
        shell::escaped(a) == "'"@ + a + "'"@,
        shell::escaped(a.push('\'') + b) == "'"@ + (a + "'\"'\"'"@ + b) + "'"@,
{
    let with = "'\"'\"'"@;
    text_laws::law_replaced(a, seq!['\''] + b, '\'', with);
    text_laws::law_replaced(seq!['\''], b, '\'', with);
    text_laws::law_replaced(b, a, '\'', with);
    assert(a.push('\'') + b =~= a + (seq!['\''] + b));
    assert(a + (with + b) =~= a + with + b);
}

/// Going to a directory names it as one argument.
pub proof fn law_cd_command(dir: Seq<char>)
    ensures
        shell::cd_command(dir) == "cd -- "@ + shell::escaped(dir),
{
}

/// A session starts in its working directory where one is given, and nothing
/// else is run then; otherwise in the default directory, where there is one, and
/// then the script is run, where there is one.
pub proof fn law_first_commands(dir: Seq<char>, default: Seq<char>, script: Seq<char>)
    requires
        default.len() > 0,
        script.len() > 0,
    ensures
        ({
            let none = None::<Seq<char>>;
            let empty = Some(Seq::<char>::empty());
            &&& shell::start_commands(Some(dir), Some(default), Some(script)) == seq![
                shell::cd_command(dir),
            ]
            &&& shell::start_commands(none, Some(default), Some(script)) == seq![
                shell::cd_command(default),
                script,
            ]
            &&& shell::start_commands(none, Some(default), none) == seq![shell::cd_command(default)]
            &&& shell::start_commands(none, Some(default), empty) == seq![
                shell::cd_command(default),
            ]
            &&& shell::start_commands(none, none, Some(script)) == seq![script]
            &&& shell::start_commands(none, empty, Some(script)) == seq![script]
            &&& shell::start_commands(none, none, none).len() == 0
            &&& shell::start_commands(none, empty, empty).len() == 0
        }),
{
}

/// Commands are sent as one text, each on a line of its own.
pub proof fn law_one_text(commands: Seq<Seq<char>>, c: Seq<char>)
    requires
        commands.len() > 0,
    ensures
        shell::one_text(Seq::empty()) is None,
        shell::one_text(seq![c]) == Some(c),
        shell::one_text(commands.push(c)) == Some((shell::one_text(commands)->0) + "\n"@ + c),
{
    reveal_with_fuel(text::joined, 2);
    assert(commands.push(c).drop_last() =~= commands);
}

// ---------------------------------------------------------------------------
// Which shell is taken
// ---------------------------------------------------------------------------

/// The first of the places where there is a file is taken.
pub proof fn law_first_file(places: Seq<(Seq<char>, bool)>, i: int)
    requires
        0 <= i <= places.len(),
        forall|j: int| 0 <= j < i ==> !(#[trigger] places[j]).1,
        i < places.len() ==> places[i].1,
    ensures
        i < places.len() ==> shell::first_file(places) == Some(places[i].0)
            && shell::windows_shell(places) == places[i].0,
        i == places.len() ==> shell::first_file(places) is None && shell::windows_shell(places)
            == "cmd.exe"@,
    decreases places.len(),
{
    if i > 0 {
        let rest = places.drop_first();
        assert(!places[0].1);
        assert forall|j: int| 0 <= j < i - 1 implies !(#[trigger] rest[j]).1 by {
            assert(rest[j] == places[j + 1]);
        }
        if i < places.len() {
            assert(rest[i - 1] == places[i]);
        }
        law_first_file(rest, i - 1);
    }
}

/// Of two values the first is taken where there is one.
pub proof fn law_first_of(a: Seq<char>, b: Option<Seq<char>>)
    ensures
        shell::first_of(Some(a), b) == Some(a),
        shell::first_of(None, b) == b,
{
}

/// The view of a list of places has each place with whether there is a file.
pub proof fn law_place_views(v: Seq<(String, bool)>, i: int)
    requires
        0 <= i < v.len(),
    ensures
        shell::place_views(v).len() == v.len(),
        shell::place_views(v)[i] == (v[i].0@, v[i].1),
{
}

/// The shells of a Windows machine are looked for in this order: `pwsh.exe` in
/// each directory of the search path, the shell of the system,
/// `powershell.exe` in each directory, the named command interpreter, and the
/// one of the system.
pub proof fn law_shell_places(
    dirs: Seq<Seq<char>>,
    root: Seq<char>,
    comspec: Seq<char>,
    found: Seq<Seq<char>>,
    i: int,
)
    requires
        shell::are_shell_places(dirs, Some(root), Some(comspec), found),
        0 <= i < dirs.len(),
    ensures
        found.len() == 2 * dirs.len() + 3,
        places::is_path_in(dirs[i], "pwsh.exe"@, found[i]),
        places::is_path_below(
            root,
            seq!["System32"@, "WindowsPowerShell"@, "v1.0"@, "powershell.exe"@],
            found[dirs.len() as int],
        ),
        places::is_path_in(dirs[i], "powershell.exe"@, found[dirs.len() + 1 + i]),
        found[(2 * dirs.len() + 1) as int] == comspec,
        places::is_path_below(root, seq!["System32"@, "cmd.exe"@], found[(2 * dirs.len() + 2) as int]),
{
}

/// Where the machine names no system directory and no interpreter, only the
/// search path is tried.
pub proof fn law_shell_places_on_path(
    dirs: Seq<Seq<char>>,
    found: Seq<Seq<char>>,
    i: int,
)
    requires
        shell::are_shell_places(dirs, None, None, found),
        0 <= i < dirs.len(),
    ensures
        found.len() == 2 * dirs.len(),
        places::is_path_in(dirs[i], "pwsh.exe"@, found[i]),
        places::is_path_in(dirs[i], "powershell.exe"@, found[dirs.len() + i]),
{
}

/// The path of a file in a directory is the directory, a separator and the name
/// of the file.
pub proof fn law_path_in(dir: Seq<char>, name: Seq<char>, path: Seq<char>)
    requires
        places::is_path_in(dir, name, path),
        dir.len() > 0,
        dir.last() != '/' && dir.last() != '\\' && dir.last() != ':',
        dir[0] != '\\',
    ensures
        path == dir.push('/') + name || path == dir.push('\\') + name,
{
}

/// The path of a file some directories below is reached one by one.
pub proof fn law_path_below(
    dir: Seq<char>,
    names: Seq<Seq<char>>,
    name: Seq<char>,
    path: Seq<char>,
)
    ensures
        places::is_path_below(dir, Seq::empty(), path) <==> path == dir,
        places::is_path_below(dir, names.push(name), path) <==> exists|parent: Seq<char>|
            places::is_path_below(dir, names, parent) && #[trigger] places::is_path_in(
                parent,
                name,
                path,
            ),
{
    assert(names.push(name).drop_last() =~= names);
    let all = names.push(name);
    assert(all.last() == name);
}

/// A shell is a zsh where its name has `zsh` as a part, case ignored, a bash
/// where it has `bash`, and some other one otherwise.
pub proof fn law_kind_of_shell(name: Seq<char>)
    ensures
        ({
            let low = text::ascii_lowered(name);
            let zsh = tree_row_laws::has_part(low, "zsh"@);
            let bash = tree_row_laws::has_part(low, "bash"@);
            &&& zsh ==> shell::kind_of_shell(name) == ShellKind::Zsh
            &&& !zsh && bash ==> shell::kind_of_shell(name) == ShellKind::Bash
            &&& !zsh && !bash ==> shell::kind_of_shell(name) == ShellKind::Other
        }),
{
    lemma_part(text::ascii_lowered(name), "zsh"@);
    lemma_part(text::ascii_lowered(name), "bash"@);
}

proof fn lemma_part(s: Seq<char>, part: Seq<char>)
    ensures
        text::occurs(s, part) == tree_row_laws::has_part(s, part),
{
    text_laws::law_occurs(s, Seq::empty(), part, Seq::empty());
    if tree_row_laws::has_part(s, part) {
        let (a, b) = choose|a: Seq<char>, b: Seq<char>| s == #[trigger] (a + part + b);
        text_laws::law_occurs(s, a, part, b);
    }
}

/// Every shell is told that it is integrated; a zsh that has a directory for it
/// is told that and its own directory, and a bash starts with its own file.
pub proof fn law_integration(dir: Seq<char>, own: Seq<char>, rc: Seq<char>, kind: ShellKind)
    ensures
        shell::integration_env(ShellKind::Zsh, Some(dir), own) == seq![
            ("ONETCLI_SHELL_INTEGRATION"@, "1"@),
            ("_ONETCLI_ORIG_ZDOTDIR"@, own),
            ("ZDOTDIR"@, dir),
        ],
        shell::integration_env(kind, None, own) == seq![("ONETCLI_SHELL_INTEGRATION"@, "1"@)],
        kind != ShellKind::Zsh ==> shell::integration_env(kind, Some(dir), own) == seq![
            ("ONETCLI_SHELL_INTEGRATION"@, "1"@),
        ],
        shell::integration_args(ShellKind::Bash, rc) == seq!["--rcfile"@, rc],
        kind != ShellKind::Bash ==> shell::integration_args(kind, rc).len() == 0,
{
}

// ---------------------------------------------------------------------------
// History
// ---------------------------------------------------------------------------

/// Each shell has its own history file.
pub proof fn law_history_names()
    ensures
        shell::history_name(ShellHistoryFormat::Bash) == ".bash_history"@,
        shell::history_name(ShellHistoryFormat::Zsh) == ".zsh_history"@,
{
}

/// The histories of both shells are read from the home directory, that of the
/// shell that is preferred last.
pub proof fn law_history_files(
    home: Seq<char>,
    preferred: Option<Seq<char>>,
    files: Seq<(String, ShellHistoryFormat)>,
)
    requires
        shell::are_history_files(Some(home), preferred, files),
    ensures
        files.len() == 2,
        places::is_path_in(home, shell::history_name(files[0].1), files[0].0@),
        places::is_path_in(home, shell::history_name(files[1].1), files[1].0@),
        files[0].1 != files[1].1,
        files[1].1 == ShellHistoryFormat::Zsh <==> preferred is Some && tree_row_laws::has_part(
            text::ascii_lowered(preferred->0),
            "zsh"@,
        ),
{
    if let Some(s) = preferred {
        lemma_part(text::ascii_lowered(s), "zsh"@);
    }
    assert(files[0].1 == shell::history_order(preferred)[0]);
    assert(files[1].1 == shell::history_order(preferred)[1]);
}

/// Without a home directory there are no history files.
pub proof fn law_no_history_files(
    preferred: Option<Seq<char>>,
    files: Seq<(String, ShellHistoryFormat)>,
)
    requires
        shell::are_history_files(None, preferred, files),
    ensures
        files.len() == 0,
{
}

/// Two histories that come as one text are told apart by the mark between them:
/// what stands before its first place is that of bash, and what stands behind
/// it that of zsh.
pub proof fn law_histories(output: Seq<char>, bash: Seq<char>, zsh: Seq<char>)
    requires
        shell::histories_are(output, bash, zsh),
    ensures
        ({
            let mark = "\n__ONETCLI_HISTORY_SPLIT__\n"@;
            &&& tree_row_laws::has_part(output, mark) ==> output == bash + mark + zsh
            &&& !tree_row_laws::has_part(output, mark) ==> bash == output && zsh.len() == 0
        }),
{
    lemma_part(output, "\n__ONETCLI_HISTORY_SPLIT__\n"@);
}

/// A command is kept without the white space around it; a blank one is not
/// kept.
pub proof fn law_kept_command(a: Seq<char>, c: Seq<char>, b: Seq<char>)
    requires
        text_laws::is_blank(a),
        text_laws::is_blank(b),
        c.len() > 0,
        !text::is_space(c[0]),
        !text::is_space(c.last()),
    ensures
        shell::kept_command(a + c + b) == Some(c),
        shell::kept_command(a) is None,
{
    text_laws::law_trimmed(a, c, b);
    text_laws::law_trimmed_is_part(a);
}

/// The commands of a history are kept in their order.
pub proof fn law_kept_commands(history: Seq<Seq<char>>, c: Seq<char>)
    ensures
        shell::kept_commands(Seq::empty()) == Seq::<Seq<char>>::empty(),
        shell::kept_command(c) matches Some(kept) ==> shell::kept_commands(history.push(c))
            == shell::kept_commands(history).push(kept),
        shell::kept_command(c) is None ==> shell::kept_commands(history.push(c))
            == shell::kept_commands(history),
{
    assert(history.push(c).drop_last() =~= history);
}

/// Of a history that is too long the last commands are kept.
pub proof fn law_last_commands(a: Seq<Seq<char>>, b: Seq<Seq<char>>, limit: int)
    requires
        limit >= b.len(),
    ensures
        shell::last_commands(b, limit) == b,
        shell::last_commands(a + b, b.len() as int) == b,
{
    if a.len() > 0 {
        assert((a + b).skip(a.len() as int) =~= b);
    } else {
        assert(a + b =~= b);
    }
}

/// The mark that tells two histories apart is the first one.
pub proof fn law_first_mark(
    output: Seq<char>,
    bash: Seq<char>,
    zsh: Seq<char>,
    a: Seq<char>,
    b: Seq<char>,
)
    requires
        shell::histories_are(output, bash, zsh),
        output == a + "\n__ONETCLI_HISTORY_SPLIT__\n"@ + b,
    ensures
        a.len() >= bash.len(),
{
    let mark = "\n__ONETCLI_HISTORY_SPLIT__\n"@;
    text_laws::law_occurs(output, a, mark, b);
    assert(output.subrange(a.len() as int, (a.len() + mark.len()) as int) =~= mark);
    assert(text::occurs_at(output, mark, a.len() as int));
}

/// A directory that ends with a slash needs no further one.
pub proof fn law_path_in_root(dir: Seq<char>, name: Seq<char>, path: Seq<char>)
    requires
        places::is_path_in(dir, name, path),
        dir.len() == 0 || (dir.last() == '/' && dir[0] != '\\'),
    ensures
        path == dir + name,
{
}

} // verus!
