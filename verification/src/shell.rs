//! Shells: how a text becomes one argument, which commands a session starts
//! with, which program a local session runs, and where its history is kept.
use vstd::prelude::*;

use crate::places;
use crate::text;

verus! {

// ---------------------------------------------------------------------------
// One argument
// ---------------------------------------------------------------------------

/// What stands for a quote inside a quoted argument.
pub const QUOTED_QUOTE: &'static str = "'\"'\"'";

/// The text as one argument for a POSIX shell.
pub open spec fn escaped(s: Seq<char>) -> Seq<char> {
    "'"@ + text::replaced(s, '\'', QUOTED_QUOTE@) + "'"@
}

/// The text as one argument for a POSIX shell, whatever characters it has.
pub fn shell_escape_arg(arg: &str) -> (r: String)
    ensures
        r@ == escaped(arg@),
{
    if arg.is_empty() {
        proof {
            reveal_strlit("''");
            reveal_strlit("'");
            assert(text::replaced(arg@, '\'', QUOTED_QUOTE@) =~= Seq::<char>::empty());
            assert("''"@ =~= escaped(arg@));
        }
        return "''".to_owned();
    }
    let mut out = "'".to_owned();
    out.append(text::replace_char(arg, '\'', QUOTED_QUOTE).as_str());
    out.append("'");
    out
}

/// Where a shell is within a word.
#[derive(Clone, Copy, Debug, PartialEq, Eq, Structural)]
pub enum Quoting {
    Outside,
    Single,
    Double,
}

/// What a POSIX shell takes a word for that is made of quoted parts alone;
/// nothing where the word has a character that a shell gives a meaning of its
/// own, or does not end.
pub open spec fn word_read(t: Seq<char>, at: Quoting) -> Option<Seq<char>>
    decreases t.len(),
{
    if t.len() == 0 {
        if at == Quoting::Outside {
            Some(Seq::empty())
        } else {
            None
        }
    } else {
        let c = t[0];
        let rest = t.drop_first();
        match at {
            Quoting::Outside => if c == '\'' {
                word_read(rest, Quoting::Single)
            } else if c == '"' {
                word_read(rest, Quoting::Double)
            } else {
                None
            },
            Quoting::Single => if c == '\'' {
                word_read(rest, Quoting::Outside)
            } else {
                prefixed(c, word_read(rest, Quoting::Single))
            },
            Quoting::Double => if c == '"' {
                word_read(rest, Quoting::Outside)
            } else if c == '$' || c == '`' || c == '\\' {
                None
            } else {
                prefixed(c, word_read(rest, Quoting::Double))
            },
        }
    }
}

/// A character before what was read, where something was.
pub open spec fn prefixed(c: char, rest: Option<Seq<char>>) -> Option<Seq<char>> {
    match rest {
        Some(r) => Some(seq![c] + r),
        None => None,
    }
}

proof fn lemma_read_replaced(s: Seq<char>, t: Seq<char>, u: Seq<char>)
    requires
        word_read(t, Quoting::Single) == Some(u),
    ensures
        word_read(text::replaced(s, '\'', QUOTED_QUOTE@) + t, Quoting::Single) == Some(s + u),
    decreases s.len(),
{
    let q = QUOTED_QUOTE@;
    reveal_strlit("'\"'\"'");
    assert(q =~= seq!['\'', '"', '\'', '"', '\'']);
    if s.len() == 0 {
        assert(text::replaced(s, '\'', q) + t =~= t);
        assert(s + u =~= u);
    } else {
        let front = s.drop_last();
        let c = s.last();
        let r = text::replaced(front, '\'', q);
        if c == '\'' {
            let t5 = q + t;
            assert(t5[0] == '\'');
            let t4 = t5.drop_first();
            assert(t4[0] == '"');
            let t3 = t4.drop_first();
            assert(t3[0] == '\'');
            let t2 = t3.drop_first();
            assert(t2[0] == '"');
            let t1 = t2.drop_first();
            assert(t1[0] == '\'');
            assert(t1.drop_first() =~= t);
            assert(word_read(t1, Quoting::Outside) == Some(u));
            assert(word_read(t2, Quoting::Double) == Some(u));
            assert(word_read(t3, Quoting::Double) == Some(seq![c] + u));
            assert(word_read(t4, Quoting::Outside) == Some(seq![c] + u));
            assert(word_read(t5, Quoting::Single) == Some(seq![c] + u));
            lemma_read_replaced(front, t5, seq![c] + u);
            assert(text::replaced(s, '\'', q) + t =~= r + t5);
        } else {
            let t1 = seq![c] + t;
            assert(t1.drop_first() =~= t);
            assert(word_read(t1, Quoting::Single) == Some(seq![c] + u));
            lemma_read_replaced(front, t1, seq![c] + u);
            assert(text::replaced(s, '\'', q) + t =~= r + t1);
        }
        assert(front + (seq![c] + u) =~= s + u);
    }
}

/// A shell takes an escaped text for one word, and the word is the text: no
/// character of it ends the word or means anything else.
pub proof fn law_escaped_reads_back(s: Seq<char>)
    ensures
        word_read(escaped(s), Quoting::Outside) == Some(s),
{
    reveal_strlit("'");
    let close = "'"@;
    assert(close =~= seq!['\'']);
    assert(close.drop_first() =~= Seq::<char>::empty());
    assert(word_read(Seq::<char>::empty(), Quoting::Outside) == Some(Seq::<char>::empty()));
    assert(word_read(close, Quoting::Single) == Some(Seq::<char>::empty()));
    let body = text::replaced(s, '\'', QUOTED_QUOTE@) + close;
    lemma_read_replaced(s, close, Seq::empty());
    assert(s + Seq::<char>::empty() =~= s);
    let all = escaped(s);
    assert(all[0] == '\'');
    assert(all.drop_first() =~= body);
}

// ---------------------------------------------------------------------------
// The commands that a session starts with
// ---------------------------------------------------------------------------

/// The command that goes to a directory.
pub open spec fn cd_command(dir: Seq<char>) -> Seq<char> {
    "cd -- "@ + escaped(dir)
}

/// The command that goes to a directory.
pub fn build_cd_command(dir: &str) -> (r: String)
    ensures
        r@ == cd_command(dir@),
{
    let mut s = "cd -- ".to_owned();
    s.append(shell_escape_arg(dir).as_str());
    s
}

/// The commands that a remote session starts with: to the given directory, or
/// else to the default one, and then the script.
pub open spec fn start_commands(
    working_dir: Option<Seq<char>>,
    default_directory: Option<Seq<char>>,
    init_script: Option<Seq<char>>,
) -> Seq<Seq<char>> {
    match working_dir {
        Some(dir) => seq![cd_command(dir)],
        None => (if default_directory matches Some(dir) && dir.len() > 0 {
            seq![cd_command(default_directory->0)]
        } else {
            Seq::empty()
        }) + (if init_script matches Some(script) && script.len() > 0 {
            seq![init_script->0]
        } else {
            Seq::empty()
        }),
    }
}

/// The commands as one text; nothing where there are none.
pub open spec fn one_text(commands: Seq<Seq<char>>) -> Option<Seq<char>> {
    if commands.len() == 0 {
        None
    } else {
        Some(text::joined(commands, "\n"@))
    }
}

/// The commands that a remote session starts with.
pub fn build_ssh_base_init_commands(
    working_dir: &Option<String>,
    default_directory: &Option<String>,
    init_script: &Option<String>,
) -> (r: Option<String>)
    ensures
        text::opt_view(r) == one_text(
            start_commands(
                text::opt_view(*working_dir),
                text::opt_view(*default_directory),
                text::opt_view(*init_script),
            ),
        ),
{
    let ghost want = start_commands(
        text::opt_view(*working_dir),
        text::opt_view(*default_directory),
        text::opt_view(*init_script),
    );
    let mut commands: Vec<String> = Vec::new();
    match working_dir {
        Some(dir) => {
            commands.push(build_cd_command(dir.as_str()));
        },
        None => {
            if let Some(dir) = default_directory {
                if !dir.as_str().is_empty() {
                    commands.push(build_cd_command(dir.as_str()));
                }
            }
            if let Some(script) = init_script {
                if !script.as_str().is_empty() {
                    commands.push(script.clone());
                }
            }
        },
    }
    assert(text::views(commands@) =~= want);
    if commands.len() == 0 {
        None
    } else {
        Some(text::join(&commands, "\n"))
    }
}

/// The commands as they are sent; whether the path is kept in step does not
/// matter.
pub fn compose_ssh_init_commands(
    base_init_commands: &Option<String>,
    _sync_path_with_terminal: bool,
) -> (r: Option<String>)
    ensures
        text::opt_view(r) == (match text::opt_view(*base_init_commands) {
            Some(s) => if s.len() == 0 {
                None
            } else {
                Some(s)
            },
            None => None,
        }),
{
    match base_init_commands {
        Some(s) => if s.as_str().is_empty() {
            None
        } else {
            Some(s.clone())
        },
        None => None,
    }
}

/// The commands that a remote session starts with, as they are sent.
pub fn build_ssh_init_commands(
    working_dir: &Option<String>,
    default_directory: &Option<String>,
    init_script: &Option<String>,
    sync_path_with_terminal: bool,
) -> (r: Option<String>)
    ensures
        text::opt_view(r) == one_text(
            start_commands(
                text::opt_view(*working_dir),
                text::opt_view(*default_directory),
                text::opt_view(*init_script),
            ),
        ),
{
    let base = build_ssh_base_init_commands(working_dir, default_directory, init_script);
    proof {
        law_start_commands(
            text::opt_view(*working_dir),
            text::opt_view(*default_directory),
            text::opt_view(*init_script),
        );
    }
    compose_ssh_init_commands(&base, sync_path_with_terminal)
}

/// The commands of a session are never an empty text, and a given directory
/// leaves no room for anything else.
pub proof fn law_start_commands(
    working_dir: Option<Seq<char>>,
    default_directory: Option<Seq<char>>,
    init_script: Option<Seq<char>>,
)
    ensures
        one_text(start_commands(working_dir, default_directory, init_script)) matches Some(s) ==> s.len()
            > 0,
        working_dir matches Some(dir) ==> one_text(
            start_commands(working_dir, default_directory, init_script),
        ) == Some(cd_command(dir)),
{
    reveal_strlit("cd -- ");
    let commands = start_commands(working_dir, default_directory, init_script);
    if commands.len() == 2 {
        assert(text::joined(commands, "\n"@) == text::joined(commands.drop_last(), "\n"@) + "\n"@
            + commands[1]);
    }
}

// ---------------------------------------------------------------------------
// The program of a local session
// ---------------------------------------------------------------------------

/// The first of the places where there is a file.
pub open spec fn first_file(places: Seq<(Seq<char>, bool)>) -> Option<Seq<char>>
    decreases places.len(),
{
    if places.len() == 0 {
        None
    } else if places[0].1 {
        Some(places[0].0)
    } else {
        first_file(places.drop_first())
    }
}

/// The views of a list of places with what was found there.
pub open spec fn place_views(v: Seq<(String, bool)>) -> Seq<(Seq<char>, bool)> {
    Seq::new(v.len(), |i: int| (v[i].0@, v[i].1))
}

/// The first of the places where there is a file.
pub fn find_executable(places: &Vec<(String, bool)>) -> (r: Option<String>)
    ensures
        text::opt_view(r) == first_file(place_views(places@)),
{
    let ghost ps = place_views(places@);
    let mut i: usize = 0;
    assert(ps.skip(0) =~= ps);
    while i < places.len()
        invariant
            i <= places@.len(),
            ps == place_views(places@),
            first_file(ps) == first_file(ps.skip(i as int)),
        decreases places@.len() - i,
    {
        assert(ps.skip(i as int)[0] == (places@[i as int].0@, places@[i as int].1));
        assert(ps.skip(i as int).drop_first() =~= ps.skip(i as int + 1));
        if places[i].1 {
            return Some(places[i].0.clone());
        }
        i = i + 1;
    }
    None
}

/// The first that is there.
pub open spec fn first_of(a: Option<Seq<char>>, b: Option<Seq<char>>) -> Option<Seq<char>> {
    match a {
        Some(_) => a,
        None => b,
    }
}

/// Where the shell of a Windows system is, below the directory of the system.
pub open spec fn system_powershell() -> Seq<Seq<char>> {
    seq!["System32"@, "WindowsPowerShell"@, "v1.0"@, "powershell.exe"@]
}

/// Where the oldest shell of a Windows system is, below the directory of the
/// system.
pub open spec fn system_cmd() -> Seq<Seq<char>> {
    seq!["System32"@, "cmd.exe"@]
}

/// How many values there are: one or none.
pub open spec fn how_many(v: Option<Seq<char>>) -> int {
    if v is Some {
        1
    } else {
        0
    }
}

/// The places where a Windows machine may have a shell, in the order they are
/// tried in: `pwsh.exe` on the search path, the shell of the system,
/// `powershell.exe` on the search path, the command interpreter that the
/// machine names, and `cmd.exe` of the system.
pub open spec fn are_shell_places(
    path_dirs: Seq<Seq<char>>,
    system_root: Option<Seq<char>>,
    comspec: Option<Seq<char>>,
    found: Seq<Seq<char>>,
) -> bool {
    let n = path_dirs.len() as int;
    let second = n + how_many(system_root);
    let third = second + n;
    let last = third + how_many(comspec);
    &&& found.len() == last + how_many(system_root)
    &&& forall|i: int|
        0 <= i < n ==> places::is_path_in(#[trigger] path_dirs[i], "pwsh.exe"@, found[i])
    &&& system_root matches Some(root) ==> places::is_path_below(
        root,
        system_powershell(),
        found[n],
    )
    &&& forall|i: int|
        0 <= i < n ==> places::is_path_in(
            #[trigger] path_dirs[i],
            "powershell.exe"@,
            found[second + i],
        )
    &&& comspec matches Some(c) ==> found[third] == c
    &&& system_root matches Some(root) ==> places::is_path_below(root, system_cmd(), found[last])
}

/// The places of the file in each of the directories.
fn places_in_dirs(dirs: &Vec<String>, name: &str) -> (r: Vec<String>)
    requires
        places::is_plain_name(name@),
    ensures
        r@.len() == dirs@.len(),
        forall|i: int|
            0 <= i < r@.len() ==> places::is_path_in(dirs@[i]@, name@, (#[trigger] r@[i])@),
{
    let mut out: Vec<String> = Vec::new();
    let mut i: usize = 0;
    while i < dirs.len()
        invariant
            i <= dirs@.len(),
            out@.len() == i,
            places::is_plain_name(name@),
            forall|j: int|
                0 <= j < i ==> places::is_path_in(dirs@[j]@, name@, (#[trigger] out@[j])@),
        decreases dirs@.len() - i,
    {
        out.push(places::path_in(dirs[i].as_str(), name));
        i = i + 1;
    }
    out
}

proof fn lemma_shell_names_are_plain()
    ensures
        places::is_plain_name("pwsh.exe"@),
        places::is_plain_name("powershell.exe"@),
        places::is_plain_name("cmd.exe"@),
{
    assert(places::is_plain_name("pwsh.exe"@)) by {
        reveal_strlit("pwsh.exe");
        reveal_strlit(".");
        reveal_strlit("..");
        assert("pwsh.exe"@.len() == 8);
    }
    assert(places::is_plain_name("powershell.exe"@)) by {
        reveal_strlit("powershell.exe");
        reveal_strlit(".");
        reveal_strlit("..");
        assert("powershell.exe"@.len() == 14);
    }
    assert(places::is_plain_name("cmd.exe"@)) by {
        reveal_strlit("cmd.exe");
        reveal_strlit(".");
        reveal_strlit("..");
        assert("cmd.exe"@.len() == 7);
    }
}

proof fn lemma_system_names_are_plain()
    ensures
        places::is_plain_name("System32"@),
        places::is_plain_name("WindowsPowerShell"@),
        places::is_plain_name("v1.0"@),
{
    assert(places::is_plain_name("System32"@)) by {
        reveal_strlit("System32");
        reveal_strlit(".");
        reveal_strlit("..");
        assert("System32"@.len() == 8);
    }
    assert(places::is_plain_name("WindowsPowerShell"@)) by {
        reveal_strlit("WindowsPowerShell");
        reveal_strlit(".");
        reveal_strlit("..");
        assert("WindowsPowerShell"@.len() == 17);
    }
    assert(places::is_plain_name("v1.0"@)) by {
        reveal_strlit("v1.0");
        reveal_strlit(".");
        reveal_strlit("..");
        assert("v1.0"@.len() == 4);
    }
}

/// The place of the shell of a Windows system.
fn system_powershell_in(root: &str) -> (r: String)
    ensures
        places::is_path_below(root@, system_powershell(), r@),
{
    proof {
        lemma_shell_names_are_plain();
        lemma_system_names_are_plain();
    }
    let system = places::path_in(root, "System32");
    let shells = places::path_in(system.as_str(), "WindowsPowerShell");
    let version = places::path_in(shells.as_str(), "v1.0");
    let r = places::path_in(version.as_str(), "powershell.exe");
    proof {
        let none = Seq::<Seq<char>>::empty();
        let one = none.push("System32"@);
        let two = one.push("WindowsPowerShell"@);
        let three = two.push("v1.0"@);
        places::lemma_one_deeper(root@, none, root@, "System32"@, system@);
        places::lemma_one_deeper(root@, one, system@, "WindowsPowerShell"@, shells@);
        places::lemma_one_deeper(root@, two, shells@, "v1.0"@, version@);
        places::lemma_one_deeper(root@, three, version@, "powershell.exe"@, r@);
        assert(three.push("powershell.exe"@) =~= system_powershell());
    }
    r
}

/// The place of the oldest shell of a Windows system.
fn system_cmd_in(root: &str) -> (r: String)
    ensures
        places::is_path_below(root@, system_cmd(), r@),
{
    proof {
        lemma_shell_names_are_plain();
        lemma_system_names_are_plain();
    }
    let system = places::path_in(root, "System32");
    let r = places::path_in(system.as_str(), "cmd.exe");
    proof {
        let none = Seq::<Seq<char>>::empty();
        let one = none.push("System32"@);
        places::lemma_one_deeper(root@, none, root@, "System32"@, system@);
        places::lemma_one_deeper(root@, one, system@, "cmd.exe"@, r@);
        assert(one.push("cmd.exe"@) =~= system_cmd());
    }
    r
}

/// The places where a Windows machine may have a shell, in the order they are
/// tried in.
pub fn windows_shell_places(
    path_dirs: &Vec<String>,
    system_root: &Option<String>,
    comspec: &Option<String>,
) -> (r: Vec<String>)
    ensures
        are_shell_places(
            text::views(path_dirs@),
            text::opt_view(*system_root),
            text::opt_view(*comspec),
            text::views(r@),
        ),
{
    proof {
        lemma_shell_names_are_plain();
    }
    let mut found = places_in_dirs(path_dirs, "pwsh.exe");
    let ghost first = found@;
    if let Some(root) = system_root {
        found.push(system_powershell_in(root.as_str()));
    }
    let ghost second = found@;
    let mut older = places_in_dirs(path_dirs, "powershell.exe");
    let ghost third = older@;
    found.append(&mut older);
    if let Some(c) = comspec {
        found.push(c.clone());
    }
    if let Some(root) = system_root {
        found.push(system_cmd_in(root.as_str()));
    }
    proof {
        let dirs = text::views(path_dirs@);
        let all = text::views(found@);
        let n = dirs.len() as int;
        assert forall|i: int| 0 <= i < n implies places::is_path_in(
            #[trigger] dirs[i],
            "pwsh.exe"@,
            all[i],
        ) by {
            assert(all[i] == first[i]@);
        }
        assert forall|i: int| 0 <= i < n implies places::is_path_in(
            #[trigger] dirs[i],
            "powershell.exe"@,
            all[second.len() + i],
        ) by {
            assert(all[second.len() + i] == third[i]@);
        }
        assert(second.len() > n ==> all[n] == second[n]@);
    }
    found
}

/// The shell of a Windows machine: the first that is there, and `cmd.exe`
/// where none was found.
pub open spec fn windows_shell(places: Seq<(Seq<char>, bool)>) -> Seq<char> {
    match first_file(places) {
        Some(s) => s,
        None => "cmd.exe"@,
    }
}

/// The shell of a Windows machine, given the places of
/// [`windows_shell_places`] and whether there is a file at each.
pub fn resolve_default_windows_shell(places: &Vec<(String, bool)>) -> (r: String)
    ensures
        r@ == windows_shell(place_views(places@)),
{
    match find_executable(places) {
        Some(s) => s,
        None => "cmd.exe".to_owned(),
    }
}

/// A program with its arguments.
#[derive(Debug)]
pub struct ShellCommand {
    pub program: String,
    pub args: Vec<String>,
}

/// The program of a local session; where arguments have to be handed over, the
/// program has to be known.
pub fn build_local_shell(
    shell: Option<String>,
    extra_args: Vec<String>,
    login_shell: Option<String>,
) -> (r: Option<ShellCommand>)
    ensures
        ({
            let program = if extra_args@.len() == 0 {
                text::opt_view(shell)
            } else {
                first_of(text::opt_view(shell), text::opt_view(login_shell))
            };
            match r {
                Some(c) => program == Some(c.program@) && c.args == extra_args,
                None => program is None,
            }
        }),
{
    let program = if extra_args.len() == 0 {
        shell
    } else {
        match shell {
            Some(s) => Some(s),
            None => login_shell,
        }
    };
    match program {
        Some(program) => Some(ShellCommand { program, args: extra_args }),
        None => None,
    }
}

/// The program of a local session on a Windows machine.
pub fn build_windows_shell(shell: Option<String>, places: &Vec<(String, bool)>) -> (r: ShellCommand)
    ensures
        r.program@ == (match shell {
            Some(s) => s@,
            None => windows_shell(place_views(places@)),
        }),
        r.args@.len() == 0,
{
    let program = match shell {
        Some(s) => s,
        None => resolve_default_windows_shell(places),
    };
    ShellCommand { program, args: Vec::new() }
}

/// The directory that a local session starts in: the given one, or home where
/// none is given or it is blank.
pub fn local_working_dir(working_dir: Option<String>, home: Option<String>) -> (r: Option<String>)
    ensures
        text::opt_view(r) == (match text::opt_view(working_dir) {
            Some(dir) => if text::trimmed(dir).len() == 0 {
                text::opt_view(home)
            } else {
                Some(dir)
            },
            None => text::opt_view(home),
        }),
{
    match working_dir {
        Some(dir) => if text::trim(dir.as_str()).as_str().is_empty() {
            home
        } else {
            Some(dir)
        },
        None => home,
    }
}

/// The directory that a local session starts in, with the home directory of
/// the user for want of a given one.
pub fn resolve_local_working_dir(working_dir: Option<String>) -> (r: Option<String>)
    ensures
        text::opt_view(working_dir) matches Some(dir) ==> text::trimmed(dir).len() > 0
            ==> text::opt_view(r) == Some(dir),
{
    let home = places::home_dir();
    local_working_dir(working_dir, home)
}

// ---------------------------------------------------------------------------
// Shell integration
// ---------------------------------------------------------------------------

/// The shells that integration is set up for.
#[derive(Clone, Copy, Debug, PartialEq, Eq, Structural)]
pub enum ShellKind {
    Zsh,
    Bash,
    Other,
}

/// The kind of a shell, by its name.
pub open spec fn kind_of_shell(name: Seq<char>) -> ShellKind {
    if text::occurs(text::ascii_lowered(name), "zsh"@) {
        ShellKind::Zsh
    } else if text::occurs(text::ascii_lowered(name), "bash"@) {
        ShellKind::Bash
    } else {
        ShellKind::Other
    }
}

/// The kind of a shell: of the given one, or else of the login shell.
pub fn shell_kind(shell: &Option<String>, login_shell: &Option<String>) -> (r: ShellKind)
    ensures
        r == kind_of_shell(
            match first_of(text::opt_view(*shell), text::opt_view(*login_shell)) {
                Some(s) => s,
                None => Seq::empty(),
            },
        ),
{
    let name = match shell {
        Some(s) => s.clone(),
        None => match login_shell {
            Some(s) => s.clone(),
            None => String::new(),
        },
    };
    let low = text::to_ascii_lowercase(name.as_str());
    if text::contains(low.as_str(), "zsh") {
        ShellKind::Zsh
    } else if text::contains(low.as_str(), "bash") {
        ShellKind::Bash
    } else {
        ShellKind::Other
    }
}

/// The file that zsh reads first: it gives the user their own files back.
pub const ZSHENV_TEXT: &'static str =
    "ZDOTDIR=\"${_ONETCLI_ORIG_ZDOTDIR:-$HOME}\"\n[[ -f \"$ZDOTDIR/.zshenv\" ]] && source \"$ZDOTDIR/.zshenv\"\n";

/// The beginning of the file that zsh reads for a session.
pub const ZSHRC_HEAD: &'static str =
    "ZDOTDIR=\"${_ONETCLI_ORIG_ZDOTDIR:-$HOME}\"\n[[ -f \"$ZDOTDIR/.zshrc\" ]] && source \"$ZDOTDIR/.zshrc\"\nsource \"";

/// The beginning of the file that bash reads for a session.
pub const BASHRC_HEAD: &'static str =
    "[[ -f \"$HOME/.bashrc\" ]] && source \"$HOME/.bashrc\"\nsource \"";

/// The file that zsh reads for a session: the file of the user, then the
/// integration script.
pub fn zshrc_text(script: &str) -> (r: String)
    ensures
        r@ == ZSHRC_HEAD@ + script@ + "\"\n"@,
{
    let mut s = ZSHRC_HEAD.to_owned();
    s.append(script);
    s.append("\"\n");
    s
}

/// The file that bash reads for a session: the file of the user, then the
/// integration script.
pub fn bash_rc_text(script: &str) -> (r: String)
    ensures
        r@ == BASHRC_HEAD@ + script@ + "\"\n"@,
{
    let mut s = BASHRC_HEAD.to_owned();
    s.append(script);
    s.append("\"\n");
    s
}

/// What a session is started with for the sake of integration.
#[derive(Debug)]
pub struct IntegrationSetup {
    pub env: Vec<(String, String)>,
    pub args: Vec<String>,
}

/// The environment of a session with integration.
pub open spec fn integration_env(
    kind: ShellKind,
    zsh_dir: Option<Seq<char>>,
    own_zdotdir: Seq<char>,
) -> Seq<(Seq<char>, Seq<char>)> {
    seq![("ONETCLI_SHELL_INTEGRATION"@, "1"@)] + (if kind == ShellKind::Zsh && zsh_dir is Some {
        seq![("_ONETCLI_ORIG_ZDOTDIR"@, own_zdotdir), ("ZDOTDIR"@, zsh_dir->0)]
    } else {
        Seq::empty()
    })
}

/// The arguments of a shell with integration.
pub open spec fn integration_args(kind: ShellKind, bash_rc: Seq<char>) -> Seq<Seq<char>> {
    if kind == ShellKind::Bash {
        seq!["--rcfile"@, bash_rc]
    } else {
        Seq::empty()
    }
}

/// What a session is started with once the integration script is written. The
/// directory for zsh is missing where it could not be made.
pub fn integration_setup(
    kind: ShellKind,
    zsh_dir: Option<String>,
    own_zdotdir: String,
    bash_rc: String,
) -> (r: IntegrationSetup)
    ensures
        crate::db_node::pair_views(r.env@) == integration_env(
            kind,
            text::opt_view(zsh_dir),
            own_zdotdir@,
        ),
        text::views(r.args@) == integration_args(kind, bash_rc@),
{
    let ghost want_env = integration_env(kind, text::opt_view(zsh_dir), own_zdotdir@);
    let ghost want_args = integration_args(kind, bash_rc@);
    let mut env: Vec<(String, String)> = Vec::new();
    let mut args: Vec<String> = Vec::new();
    env.push(("ONETCLI_SHELL_INTEGRATION".to_owned(), "1".to_owned()));
    if kind == ShellKind::Zsh {
        if let Some(dir) = zsh_dir {
            env.push(("_ONETCLI_ORIG_ZDOTDIR".to_owned(), own_zdotdir));
            env.push(("ZDOTDIR".to_owned(), dir));
        }
    } else if kind == ShellKind::Bash {
        args.push("--rcfile".to_owned());
        args.push(bash_rc);
    }
    assert(crate::db_node::pair_views(env@) =~= want_env);
    assert(text::views(args@) =~= want_args);
    IntegrationSetup { env, args }
}

// ---------------------------------------------------------------------------
// History
// ---------------------------------------------------------------------------

/// The formats of history files.
#[derive(Clone, Copy, Debug, PartialEq, Eq, Structural)]
pub enum ShellHistoryFormat {
    Bash,
    Zsh,
}

/// The name of the history file of a format, below the home directory.
pub open spec fn history_name(format: ShellHistoryFormat) -> Seq<char> {
    match format {
        ShellHistoryFormat::Bash => ".bash_history"@,
        ShellHistoryFormat::Zsh => ".zsh_history"@,
    }
}

proof fn lemma_history_names_are_plain()
    ensures
        places::is_plain_name(".bash_history"@),
        places::is_plain_name(".zsh_history"@),
{
    assert(places::is_plain_name(".bash_history"@)) by {
        reveal_strlit(".bash_history");
        reveal_strlit(".");
        reveal_strlit("..");
        assert(".bash_history"@.len() == 13);
    }
    assert(places::is_plain_name(".zsh_history"@)) by {
        reveal_strlit(".zsh_history");
        reveal_strlit(".");
        reveal_strlit("..");
        assert(".zsh_history"@.len() == 12);
    }
}

/// The name of the history file of a format, below the home directory.
pub fn history_file_name(format: ShellHistoryFormat) -> (r: &'static str)
    ensures
        r@ == history_name(format),
        places::is_plain_name(r@),
{
    proof {
        lemma_history_names_are_plain();
    }
    match format {
        ShellHistoryFormat::Bash => ".bash_history",
        ShellHistoryFormat::Zsh => ".zsh_history",
    }
}

/// The formats in the order in which histories are read: that of the shell
/// comes last, as its commands are the latest.
pub open spec fn history_order(preferred_shell: Option<Seq<char>>) -> Seq<ShellHistoryFormat> {
    if preferred_shell matches Some(s) && text::occurs(text::ascii_lowered(s), "zsh"@) {
        seq![ShellHistoryFormat::Bash, ShellHistoryFormat::Zsh]
    } else {
        seq![ShellHistoryFormat::Zsh, ShellHistoryFormat::Bash]
    }
}

/// The files are the histories below `home` in the order they are read in;
/// there are none where there is no home.
pub open spec fn are_history_files(
    home: Option<Seq<char>>,
    preferred_shell: Option<Seq<char>>,
    files: Seq<(String, ShellHistoryFormat)>,
) -> bool {
    match home {
        None => files.len() == 0,
        Some(h) => {
            &&& files.len() == 2
            &&& forall|i: int|
                0 <= i < 2 ==> (#[trigger] files[i]).1 == history_order(preferred_shell)[i]
                    && places::is_path_in(h, history_name(files[i].1), files[i].0@)
        },
    }
}

/// The history files below a home directory.
pub fn history_files_in(home: &Option<String>, preferred_shell: &Option<String>) -> (r: Vec<
    (String, ShellHistoryFormat),
>)
    ensures
        are_history_files(text::opt_view(*home), text::opt_view(*preferred_shell), r@),
{
    let mut files: Vec<(String, ShellHistoryFormat)> = Vec::new();
    let zsh = match preferred_shell {
        Some(s) => text::contains(text::to_ascii_lowercase(s.as_str()).as_str(), "zsh"),
        None => false,
    };
    if let Some(h) = home {
        let (first, last) = if zsh {
            (ShellHistoryFormat::Bash, ShellHistoryFormat::Zsh)
        } else {
            (ShellHistoryFormat::Zsh, ShellHistoryFormat::Bash)
        };
        files.push((places::path_in(h.as_str(), history_file_name(first)), first));
        files.push((places::path_in(h.as_str(), history_file_name(last)), last));
    }
    files
}

/// The history files of the user. Where the home directory is depends on the
/// machine; the files are those of some home directory, or none.
pub fn history_file_candidates(preferred_shell: &Option<String>) -> (r: Vec<
    (String, ShellHistoryFormat),
>)
    ensures
        exists|home: Option<Seq<char>>| #[trigger]
            are_history_files(home, text::opt_view(*preferred_shell), r@),
{
    let home = places::home_dir();
    let files = history_files_in(&home, preferred_shell);
    assert(are_history_files(text::opt_view(home), text::opt_view(*preferred_shell), files@));
    files
}

/// What stands between the two histories of a remote machine.
pub const HISTORY_SPLIT: &'static str = "\n__ONETCLI_HISTORY_SPLIT__\n";

/// The command that writes out the histories of a remote machine.
pub const REMOTE_HISTORY_COMMAND: &'static str =
    "sh -lc ' if [ -f \"$HOME/.bash_history\" ]; then tail -n 512 \"$HOME/.bash_history\" 2>/dev/null || true; fi; printf \"\\n__ONETCLI_HISTORY_SPLIT__\\n\"; if [ -f \"$HOME/.zsh_history\" ]; then tail -n 512 \"$HOME/.zsh_history\" 2>/dev/null || true; fi '";

/// The command that writes out the histories of a remote machine.
pub fn build_remote_history_load_command() -> (r: String)
    ensures
        r@ == REMOTE_HISTORY_COMMAND@,
{
    REMOTE_HISTORY_COMMAND.to_owned()
}

/// The two histories of a remote machine, before and after what stands between
/// them; all is of the first where nothing does.
pub open spec fn histories_are(output: Seq<char>, bash: Seq<char>, zsh: Seq<char>) -> bool {
    if text::occurs(output, HISTORY_SPLIT@) {
        &&& output == bash + HISTORY_SPLIT@ + zsh
        &&& forall|j: int| 0 <= j < bash.len() ==> !text::occurs_at(output, HISTORY_SPLIT@, j)
    } else {
        bash == output && zsh.len() == 0
    }
}

/// The two histories of a remote machine.
pub fn split_remote_history(output: &str) -> (r: (String, String))
    ensures
        histories_are(output@, r.0@, r.1@),
{
    let chars = text::to_chars(output);
    let split = text::to_chars(HISTORY_SPLIT);
    let total: usize = chars.len();
    match text::find_chars(&chars, &split, 0) {
        Some(at) => {
            assert(at + split@.len() <= total);
            let behind: usize = at + split.len();
            let bash = text::from_range(&chars, 0, at);
            let zsh = text::from_range(&chars, behind, total);
            proof {
                assert(text::occurs_at(output@, HISTORY_SPLIT@, at as int));
                assert(output@ =~= bash@ + HISTORY_SPLIT@ + zsh@) by {
                    assert(output@.subrange(at as int, at + split@.len()) == split@);
                    assert forall|k: int| 0 <= k < output@.len() implies (bash@ + HISTORY_SPLIT@
                        + zsh@)[k] == output@[k] by {
                        if at <= k < behind {
                            assert(output@.subrange(at as int, at + split@.len())[k - at]
                                == split@[k - at]);
                        }
                    }
                }
            }
            (bash, zsh)
        },
        None => {
            let bash = text::from_chars(&chars);
            (bash, String::new())
        },
    }
}

/// The command as it is kept in the history; nothing where it is blank.
pub fn normalize_history_command(command: &str) -> (r: Option<String>)
    ensures
        text::opt_view(r) == kept_command(command@),
{
    let trimmed = text::trim(command);
    if trimmed.as_str().is_empty() {
        None
    } else {
        Some(trimmed)
    }
}

/// The command as it is kept in the history; nothing where it is blank.
pub open spec fn kept_command(command: Seq<char>) -> Option<Seq<char>> {
    if text::trimmed(command).len() == 0 {
        None
    } else {
        Some(text::trimmed(command))
    }
}

/// The commands that are kept of a history.
pub open spec fn kept_commands(history: Seq<Seq<char>>) -> Seq<Seq<char>>
    decreases history.len(),
{
    if history.len() == 0 {
        Seq::empty()
    } else {
        let rest = kept_commands(history.drop_last());
        match kept_command(history.last()) {
            Some(c) => rest.push(c),
            None => rest,
        }
    }
}

/// The last `limit` of the commands.
pub open spec fn last_commands(commands: Seq<Seq<char>>, limit: int) -> Seq<Seq<char>> {
    if commands.len() <= limit {
        commands
    } else {
        commands.skip(commands.len() - limit)
    }
}

/// The last commands of a history that are kept, `limit` at most.
pub fn trim_history(history: &Vec<String>, limit: usize) -> (r: Vec<String>)
    ensures
        text::views(r@) == last_commands(kept_commands(text::views(history@)), limit as int),
{
    let ghost hs = text::views(history@);
    let mut kept: Vec<String> = Vec::new();
    let mut i: usize = 0;
    assert(hs.take(0) =~= Seq::empty());
    assert(text::views(kept@) =~= Seq::empty());
    while i < history.len()
        invariant
            i <= history@.len(),
            hs == text::views(history@),
            text::views(kept@) == kept_commands(hs.take(i as int)),
        decreases history@.len() - i,
    {
        let ghost before = kept@;
        assert(hs.take(i as int + 1).drop_last() =~= hs.take(i as int));
        assert(hs.take(i as int + 1).last() == history@[i as int]@);
        if let Some(c) = normalize_history_command(history[i].as_str()) {
            kept.push(c);
            assert(text::views(kept@) =~= text::views(before).push(c@));
        }
        i = i + 1;
    }
    assert(hs.take(hs.len() as int) =~= hs);
    if kept.len() <= limit {
        return kept;
    }
    let ghost all = text::views(kept@);
    let mut out: Vec<String> = Vec::new();
    let first: usize = kept.len() - limit;
    let mut j: usize = first;
    while j < kept.len()
        invariant
            first <= j <= kept@.len(),
            all == text::views(kept@),
            text::views(out@) == all.subrange(first as int, j as int),
        decreases kept@.len() - j,
    {
        let ghost before = out@;
        out.push(kept[j].clone());
        assert(text::views(out@) =~= text::views(before).push(all[j as int]));
        assert(all.subrange(first as int, j as int + 1) =~= all.subrange(
            first as int,
            j as int,
        ).push(all[j as int]));
        j = j + 1;
    }
    assert(all.subrange(first as int, all.len() as int) =~= all.skip(first as int));
    out
}

/// What a remote machine has written of its history so far.
#[derive(Debug)]
pub struct HistoryTransfer {
    pub output: Vec<u8>,
    pub exit_code: Option<u32>,
    pub ended: bool,
}

impl HistoryTransfer {
    /// Nothing came yet.
    pub fn new() -> (r: HistoryTransfer)
        ensures
            r.output@.len() == 0,
            r.exit_code is None,
            !r.ended,
    {
        HistoryTransfer { output: Vec::new(), exit_code: None, ended: false }
    }

    /// Takes over what the channel brought; nothing where it is gone.
    pub fn take(&mut self, event: Option<crate::ssh_connect::ChannelEvent>)
        ensures
            final(self).output@ == (match event {
                Some(crate::ssh_connect::ChannelEvent::Data(data)) => old(self).output@ + data@,
                _ => old(self).output@,
            }),
            final(self).exit_code == (match event {
                Some(crate::ssh_connect::ChannelEvent::ExitStatus(code)) => Some(code),
                _ => old(self).exit_code,
            }),
            final(self).ended == (old(self).ended || event is None || (event matches Some(e) && (e
                is Eof || e is Close))),
    {
        match event {
            Some(crate::ssh_connect::ChannelEvent::Data(data)) => {
                let mut data = data;
                self.output.append(&mut data);
            },
            Some(crate::ssh_connect::ChannelEvent::ExitStatus(code)) => {
                self.exit_code = Some(code);
            },
            Some(crate::ssh_connect::ChannelEvent::Eof) => {
                self.ended = true;
            },
            Some(crate::ssh_connect::ChannelEvent::Close) => {
                self.ended = true;
            },
            None => {
                self.ended = true;
            },
            _ => {},
        }
    }

    /// The text of what came in all, or why it does not count: the command
    /// failed.
    pub fn finish(self) -> (r: Result<String, String>)
        ensures
            match r {
                Ok(output) => {
                    &&& self.exit_code is None || self.exit_code == Some(0u32)
                    &&& output@ == text::lossy_text(self.output@)
                    &&& vstd::utf8::valid_utf8(self.output@) ==> output@
                        == vstd::utf8::decode_utf8(self.output@)
                },
                Err(message) => self.exit_code matches Some(code) && code != 0 && message@
                    == "ssh history loader exited with status "@ + text::decimal(code as nat),
            },
    {
        if let Some(code) = self.exit_code {
            if code != 0 {
                let mut s = "ssh history loader exited with status ".to_owned();
                s.append(text::number(code as u64).as_str());
                return Err(s);
            }
        }
        Ok(text::from_bytes(&self.output))
    }
}

} // verus!
