//! The built-in commands and the search for external programs.

use crate::text::str_eq;
use vstd::prelude::*;
use vstd::string::*;

verus! {

/// Whether `name` is the name of a built-in command: `cd`, `pwd`, `echo` or
/// `exit`.
pub open spec fn is_builtin(name: Seq<char>) -> bool {
    name == "cd"@ || name == "pwd"@ || name == "echo"@ || name == "exit"@
}

/// Checks whether the given command is a built-in.
pub fn builtin_check(cmd: &str) -> (b: bool)
    ensures
        b == is_builtin(cmd@),
{
    str_eq(cmd, "cd") || str_eq(cmd, "pwd") || str_eq(cmd, "echo") || str_eq(cmd, "exit")
}

/// The words of a list, with a single space between each two of them.
pub open spec fn spaced(words: Seq<Seq<char>>) -> Seq<char>
    decreases words.len(),
{
    if words.len() == 0 {
        Seq::empty()
    } else if words.len() == 1 {
        words[0]
    } else {
        spaced(words.drop_last()) + seq![' '] + words.last()
    }
}

/// What `echo` writes: its arguments, separated by single spaces, and a
/// newline. A first argument `-n` is not written; it suppresses the newline.
pub open spec fn echo_text(args: Seq<Seq<char>>) -> Seq<char> {
    if args.len() > 0 && args[0] == "-n"@ {
        spaced(args.skip(1))
    } else {
        spaced(args) + seq!['\n']
    }
}

/// The text that `echo` writes for the given arguments.
pub fn builtin_echo(args: &[String]) -> (text: String)
    ensures
        text@ == echo_text(args.deep_view()),
{
    let bare = args.len() > 0 && str_eq(args[0].as_str(), "-n");
    let first: usize = if bare {
        1
    } else {
        0
    };
    let ghost words = args.deep_view().skip(first as int);
    let mut text = String::new();
    let mut i: usize = first;
    while i < args.len()
        invariant
            first <= i <= args.len(),
            words == args.deep_view().skip(first as int),
            text@ == spaced(words.take(i - first)),
        decreases args.len() - i,
    {
        proof {
            reveal_strlit(" ");
            assert(words.take(i - first + 1).drop_last() == words.take(i - first));
            assert(words.take(i - first + 1).last() == args[i as int]@);
        }
        if i > first {
            text.append(" ");
        }
        text.append(args[i].as_str());
        i += 1;
    }
    proof {
        reveal_strlit("\n");
        assert(words.take(args.len() - first) == words);
        assert(args.deep_view().skip(0) == args.deep_view());
        assert(args.len() > 0 ==> args.deep_view()[0] == args[0]@);
    }
    if !bare {
        text.append("\n");
    }
    text
}

/// Whether `c` is one of the digits `0` to `9`.
pub open spec fn is_digit(c: char) -> bool {
    0x30 <= c as u32 <= 0x39
}

/// The number that a sequence of digits denotes in base ten.
pub open spec fn decimal(digits: Seq<char>) -> int
    decreases digits.len(),
{
    if digits.len() == 0 {
        0
    } else {
        decimal(digits.drop_last()) * 10 + (digits.last() as u32 - 0x30)
    }
}

/// Whether every character of `s` is a digit.
pub open spec fn all_digits(s: Seq<char>) -> bool {
    forall|i: int| 0 <= i < s.len() ==> is_digit(#[trigger] s[i])
}

/// The integer that `s` denotes: an optional sign, `+` or `-`, and after it
/// one or more digits, with nothing before, between or after them.
pub open spec fn integer(s: Seq<char>) -> Option<int> {
    let signed = s.len() > 0 && (s[0] == '-' || s[0] == '+');
    let digits = if signed {
        s.drop_first()
    } else {
        s
    };
    if digits.len() == 0 || !all_digits(digits) {
        None
    } else if s[0] == '-' {
        Some(-decimal(digits))
    } else {
        Some(decimal(digits))
    }
}

/// The integer that `s` denotes, where it denotes one that fits in 32 bits.
pub open spec fn integer32(s: Seq<char>) -> Option<i32> {
    match integer(s) {
        Some(v) => if i32::MIN <= v <= i32::MAX {
            Some(v as i32)
        } else {
            None
        },
        None => None,
    }
}

/// A number does not shrink when digits are written after it.
proof fn lemma_decimal_grows(digits: Seq<char>, k: int)
    requires
        0 <= k <= digits.len(),
        all_digits(digits),
    ensures
        0 <= decimal(digits.take(k)) <= decimal(digits),
    decreases digits.len() - k,
{
    if k == digits.len() {
        assert(digits.take(k) == digits);
        lemma_decimal_positive(digits);
    } else {
        lemma_decimal_grows(digits.drop_last(), k);
        assert(digits.drop_last().take(k) == digits.take(k));
        assert(is_digit(digits.last()));
    }
}

/// A sequence of digits denotes no negative number.
proof fn lemma_decimal_positive(digits: Seq<char>)
    requires
        all_digits(digits),
    ensures
        0 <= decimal(digits),
    decreases digits.len(),
{
    if digits.len() > 0 {
        lemma_decimal_positive(digits.drop_last());
        assert(is_digit(digits.last()));
    }
}

/// Reads a 32-bit integer in base ten.
pub fn parse_integer(s: &str) -> (r: Option<i32>)
    ensures
        r == integer32(s@),
{
    let chars = crate::text::chars_of(s);
    let n = chars.len();
    let negative = n > 0 && chars[0] == '-';
    let first: usize = if n > 0 && (chars[0] == '-' || chars[0] == '+') {
        1
    } else {
        0
    };
    let ghost digits = s@.skip(first as int);
    proof {
        assert(s@.skip(0) == s@);
        if n > 0 {
            assert(s@.skip(1) == s@.drop_first());
        }
    }
    if first == n {
        return None;
    }
    let limit: i64 = if negative {
        2147483648
    } else {
        2147483647
    };
    let mut value: i64 = 0;
    let mut i: usize = first;
    while i < n
        invariant
            first <= i <= n,
            n == chars.len(),
            chars@ == s@,
            digits == s@.skip(first as int),
            digits.len() > 0,
            integer(s@) == if !all_digits(digits) {
                None
            } else if negative {
                Some(-decimal(digits))
            } else {
                Some(decimal(digits))
            },
            limit == if negative {
                2147483648i64
            } else {
                2147483647i64
            },
            forall|k: int| 0 <= k < i - first ==> is_digit(#[trigger] digits[k]),
            value == decimal(digits.take(i - first)),
            0 <= value <= limit,
        decreases n - i,
    {
        let c = chars[i];
        let code: u32 = c as u32;
        assert(digits[i - first] == c);
        if code < 0x30 || code > 0x39 {
            assert(!is_digit(digits[i - first]));
            return None;
        }
        proof {
            assert(digits.take(i - first + 1).drop_last() == digits.take(i - first));
            assert(digits.take(i - first + 1).last() == c);
        }
        value = value * 10 + (code - 0x30) as i64;
        i += 1;
        if value > limit {
            proof {
                if all_digits(digits) {
                    lemma_decimal_grows(digits, i - first);
                }
            }
            return None;
        }
    }
    proof {
        assert(digits.take(n - first) == digits);
    }
    if negative {
        Some((-value) as i32)
    } else {
        Some(value as i32)
    }
}

/// The status with which `exit` ends the process: its first argument where
/// that is a 32-bit integer, 0 where it is not or where there is none.
pub open spec fn exit_status(args: Seq<Seq<char>>) -> i32 {
    if args.len() > 0 && integer32(args[0]) is Some {
        integer32(args[0])->0
    } else {
        0
    }
}

/// Computes the status with which `exit` ends the process.
pub fn exit_code(args: &[String]) -> (code: i32)
    ensures
        code == exit_status(args.deep_view()),
{
    if args.len() == 0 {
        return 0;
    }
    assert(args.deep_view()[0] == args[0]@);
    match parse_integer(args[0].as_str()) {
        Some(code) => code,
        None => 0,
    }
}

/// Whether a path starts at the root directory.
pub open spec fn is_absolute(path: Seq<char>) -> bool {
    path.len() > 0 && path[0] == '/'
}

/// The path `rel` as seen from the directory `base`: `rel` itself where it is
/// absolute, else `base` and `rel` with one separator between them.
pub open spec fn joined_path(base: Seq<char>, rel: Seq<char>) -> Seq<char> {
    if is_absolute(rel) {
        rel
    } else if base.len() > 0 && base.last() != '/' {
        base + seq!['/'] + rel
    } else {
        base + rel
    }
}

/// Joins a path to a directory.
pub fn join_path(base: &str, rel: &str) -> (path: String)
    ensures
        path@ == joined_path(base@, rel@),
{
    if rel.unicode_len() > 0 && rel.get_char(0) == '/' {
        return rel.to_owned();
    }
    let n = base.unicode_len();
    let mut path = base.to_owned();
    if n > 0 && base.get_char(n - 1) != '/' {
        proof {
            reveal_strlit("/");
        }
        path.append("/");
    }
    path.append(rel);
    path
}

/// The directory that `cd` names: its first argument, else the home
/// directory, else the root directory.
pub open spec fn cd_destination(args: Seq<Seq<char>>, home: Option<Seq<char>>) -> Seq<char> {
    if args.len() > 0 {
        args[0]
    } else {
        match home {
            Some(home) => home,
            None => seq!['/'],
        }
    }
}

/// What a built-in command asks of the process that runs it.
#[derive(Debug)]
pub enum BuiltinAction {
    /// End the process with this status.
    Exit { code: i32 },
    /// Make `target` the working directory. If that fails, write
    /// `cd_failure(shown, cause)` to the output stream and go on.
    ChangeDir { target: String, shown: String },
    /// Write the text to the output stream.
    Write { text: String },
}

/// A `BuiltinAction`, as a mathematical value.
pub enum BuiltinActionView {
    Exit { code: i32 },
    ChangeDir { target: Seq<char>, shown: Seq<char> },
    Write { text: Seq<char> },
}

impl View for BuiltinAction {
    type V = BuiltinActionView;

    open spec fn view(&self) -> BuiltinActionView {
        match self {
            BuiltinAction::Exit { code } => BuiltinActionView::Exit { code: *code },
            BuiltinAction::ChangeDir { target, shown } => BuiltinActionView::ChangeDir {
                target: target@,
                shown: shown@,
            },
            BuiltinAction::Write { text } => BuiltinActionView::Write { text: text@ },
        }
    }
}

/// What the built-in `cmd` does with the arguments `args`, where `home` is the
/// home directory, if one is known, and `cwd` the working directory.
///
/// - `exit` ends the process with `exit_status(args)`.
/// - `cd` changes to `cd_destination(args, home)`, seen from `cwd`.
/// - `pwd` writes `cwd` and a newline.
/// - `echo` writes `echo_text(args)`.
pub open spec fn builtin_action(
    cmd: Seq<char>,
    args: Seq<Seq<char>>,
    home: Option<Seq<char>>,
    cwd: Seq<char>,
) -> BuiltinActionView {
    if cmd == "exit"@ {
        BuiltinActionView::Exit { code: exit_status(args) }
    } else if cmd == "cd"@ {
        BuiltinActionView::ChangeDir {
            target: joined_path(cwd, cd_destination(args, home)),
            shown: cd_destination(args, home),
        }
    } else if cmd == "pwd"@ {
        BuiltinActionView::Write { text: cwd + seq!['\n'] }
    } else {
        BuiltinActionView::Write { text: echo_text(args) }
    }
}

/// Decides what a built-in command does.
///
/// The command writes nothing and changes nothing itself: the result says
/// what the process that runs it is to do. `home` is the value of `HOME`, if
/// it is set; `cwd` is the working directory.
pub fn builtin_process(cmd: &str, args: &[String], home: Option<&str>, cwd: &str) -> (action:
    BuiltinAction)
    requires
        is_builtin(cmd@),
    ensures
        action@ == builtin_action(cmd@, args.deep_view(), home.deep_view(), cwd@),
{
    if str_eq(cmd, "exit") {
        BuiltinAction::Exit { code: exit_code(args) }
    } else if str_eq(cmd, "cd") {
        let shown: String = if args.len() > 0 {
            assert(args.deep_view()[0] == args[0]@);
            args[0].clone()
        } else {
            match home {
                Some(home) => home.to_owned(),
                None => {
                    proof {
                        reveal_strlit("/");
                    }
                    "/".to_owned()
                },
            }
        };
        assert(shown@ =~= cd_destination(args.deep_view(), home.deep_view()));
        let target = join_path(cwd, shown.as_str());
        BuiltinAction::ChangeDir { target, shown }
    } else if str_eq(cmd, "pwd") {
        let mut text = cwd.to_owned();
        proof {
            reveal_strlit("\n");
        }
        text.append("\n");
        assert(text@ =~= cwd@ + seq!['\n']);
        BuiltinAction::Write { text }
    } else {
        BuiltinAction::Write { text: builtin_echo(args) }
    }
}

/// What is written when the working directory could not be changed:
/// `failed to change directories!`, and on a second line `cd`, the directory
/// as it was named, and the cause.
pub open spec fn cd_failure_text(shown: Seq<char>, cause: Seq<char>) -> Seq<char> {
    "failed to change directories!\ncd "@ + shown + " : "@ + cause
}

/// The diagnostic for a `cd` that failed.
pub fn cd_failure(shown: &str, cause: &str) -> (text: String)
    ensures
        text@ == cd_failure_text(shown@, cause@),
{
    let mut text = "failed to change directories!\ncd ".to_owned();
    text.append(shown);
    text.append(" : ");
    text.append(cause);
    text
}

/// Whether a file can be executed: it is a regular file, and at least one of
/// the three execute bits of its mode, for owner, group and others, is set.
pub open spec fn executable(is_file: bool, mode: u32) -> bool {
    is_file && (mode & 0o100 != 0 || mode & 0o010 != 0 || mode & 0o001 != 0)
}

/// Tests what is known of a file for executability: whether it is a regular
/// file, and its permission bits.
pub fn is_executable(is_file: bool, mode: u32) -> (b: bool)
    ensures
        b == executable(is_file, mode),
{
    assert((mode & 0o111 != 0) == (mode & 0o100 != 0 || mode & 0o010 != 0 || mode & 0o001 != 0))
        by (bit_vector);
    is_file && mode & 0o111 != 0
}

/// The paths at which a command is looked for, in order: the name itself
/// where it holds a separator, else the name in each directory of the search
/// path.
pub open spec fn candidates(cmd: Seq<char>, search_paths: Seq<Seq<char>>) -> Seq<Seq<char>> {
    if cmd.contains('/') {
        seq![cmd]
    } else {
        Seq::new(search_paths.len(), |i: int| joined_path(search_paths[i], cmd))
    }
}

/// Whether `probe`, asked about `path`, gave `answer`.
pub open spec fn answered<F: Fn(&str) -> bool>(probe: F, path: Seq<char>, answer: bool) -> bool {
    exists|p: &str| p@ == path && #[trigger] probe.ensures((p,), answer)
}

/// Whether `found` is the first of `paths` of which `probe` said yes, all
/// those before it having been asked about and denied; or nothing, all of
/// them having been denied.
pub open spec fn first_accepted<F: Fn(&str) -> bool>(
    probe: F,
    paths: Seq<Seq<char>>,
    found: Option<Seq<char>>,
) -> bool {
    match found {
        Some(path) => exists|i: int|
            {
                &&& 0 <= i < paths.len()
                &&& #[trigger] paths[i] == path
                &&& answered(probe, path, true)
                &&& forall|j: int| 0 <= j < i ==> answered(probe, #[trigger] paths[j], false)
            },
        None => forall|j: int| 0 <= j < paths.len() ==> answered(probe, #[trigger] paths[j], false),
    }
}

/// Whether a text holds a path separator.
pub fn has_separator(s: &str) -> (b: bool)
    ensures
        b == s@.contains('/'),
{
    let chars = crate::text::chars_of(s);
    let at = crate::text::scan(&chars, 0, crate::text::CharClass::Except('/'));
    proof {
        assert(chars@.skip(0) == s@);
        crate::text::lemma_span_bounds(s@, crate::text::CharClass::Except('/'));
        if at < chars.len() {
            assert(s@[at as int] == '/');
        } else {
            assert forall|i: int| 0 <= i < s@.len() implies s@[i] != '/' by {
                assert(crate::text::CharClass::Except('/').has(s@[i]));
            }
        }
    }
    at < chars.len()
}

/// Resolves a command name to the path of an executable.
///
/// A name that holds a separator is a path: it alone is tested, and the
/// search path is not looked at. Any other name is looked for in each
/// directory of the search path, in order. `is_executable` says of a path
/// whether an executable file is there; the first path of which it says yes
/// is the result, and no path after that one is tested.
pub fn find_command<F: Fn(&str) -> bool>(
    cmd: &str,
    search_paths: &[String],
    is_executable: F,
) -> (found: Option<String>)
    requires
        forall|p: &str|
            candidates(cmd@, search_paths.deep_view()).contains(p@) ==> is_executable.requires(
                (p,),
            ),
    ensures
        first_accepted(is_executable, candidates(cmd@, search_paths.deep_view()), found.deep_view()),
{
    let ghost paths = candidates(cmd@, search_paths.deep_view());
    if has_separator(cmd) {
        assert(paths[0] == cmd@);
        if is_executable(cmd) {
            return Some(cmd.to_owned());
        } else {
            return None;
        }
    }
    let mut i: usize = 0;
    while i < search_paths.len()
        invariant
            i <= search_paths.len(),
            paths == candidates(cmd@, search_paths.deep_view()),
            paths.len() == search_paths.len(),
            !cmd@.contains('/'),
            forall|p: &str| paths.contains(p@) ==> is_executable.requires((p,)),
            forall|j: int| 0 <= j < i ==> answered(is_executable, #[trigger] paths[j], false),
        decreases search_paths.len() - i,
    {
        let candidate = join_path(search_paths[i].as_str(), cmd);
        assert(candidate@ == paths[i as int]);
        if is_executable(candidate.as_str()) {
            return Some(candidate);
        }
        i += 1;
    }
    None
}

/// The status with which a process ends that could not become the program it
/// was to run.
pub const LAUNCH_FAILED: i32 = 1;

/// How an external command is launched.
#[derive(Debug)]
pub enum Launch {
    /// Replace the process image with the program at `path`, which gets
    /// `argv` as its argument vector.
    Execute { path: String, argv: Vec<String> },
    /// Write `message` to the error stream and end the process with `status`.
    Refuse { message: String, status: i32 },
}

/// A `Launch`, as a mathematical value.
pub enum LaunchView {
    Execute { path: Seq<char>, argv: Seq<Seq<char>> },
    Refuse { message: Seq<char>, status: i32 },
}

impl View for Launch {
    type V = LaunchView;

    open spec fn view(&self) -> LaunchView {
        match self {
            Launch::Execute { path, argv } => LaunchView::Execute {
                path: path@,
                argv: argv.deep_view(),
            },
            Launch::Refuse { message, status } => LaunchView::Refuse {
                message: message@,
                status: *status,
            },
        }
    }
}

/// The diagnostic for a command that could not be launched: it names the
/// command and the cause.
pub open spec fn launch_failure_text(cmd: Seq<char>, cause: Seq<char>) -> Seq<char> {
    "rune: failed to execute "@ + cmd + ": "@ + cause
}

/// The launch of `cmd` with `args`, where `resolved` is the executable that
/// the name resolved to, if any. The program's argument vector is the name as
/// it was given, and after it the arguments.
pub open spec fn launch_of(cmd: Seq<char>, args: Seq<Seq<char>>, resolved: Option<Seq<char>>)
    -> LaunchView {
    match resolved {
        Some(path) => LaunchView::Execute { path, argv: seq![cmd] + args },
        None => LaunchView::Refuse {
            message: launch_failure_text(cmd, "command not found"@),
            status: LAUNCH_FAILED,
        },
    }
}

/// The diagnostic for a command whose launch failed with `cause`.
pub fn launch_failure(cmd: &str, cause: &str) -> (message: String)
    ensures
        message@ == launch_failure_text(cmd@, cause@),
{
    let mut message = "rune: failed to execute ".to_owned();
    message.append(cmd);
    message.append(": ");
    message.append(cause);
    message
}

/// Decides how an external command is launched.
///
/// `resolved` is what `find_command` made of the name. The launch never hands
/// control back to the command loop: where the image cannot be replaced, the
/// process is to report `launch_failure` and end with `LAUNCH_FAILED`.
pub fn process_external(cmd: &str, args: &[String], resolved: Option<String>) -> (launch: Launch)
    ensures
        launch@ == launch_of(cmd@, args.deep_view(), resolved.deep_view()),
{
    match resolved {
        Some(path) => {
            let mut argv: Vec<String> = Vec::new();
            argv.push(cmd.to_owned());
            let mut i: usize = 0;
            while i < args.len()
                invariant
                    i <= args.len(),
                    argv.deep_view() == seq![cmd@] + args.deep_view().take(i as int),
                decreases args.len() - i,
            {
                let ghost before = argv.deep_view();
                argv.push(args[i].clone());
                assert(argv.deep_view() == before.push(args[i as int]@));
                assert(args.deep_view().take(i + 1) == args.deep_view().take(i as int).push(
                    args[i as int]@,
                ));
                i += 1;
            }
            assert(args.deep_view().take(args.len() as int) == args.deep_view());
            Launch::Execute { path, argv }
        },
        None => Launch::Refuse {
            message: launch_failure(cmd, "command not found"),
            status: LAUNCH_FAILED,
        },
    }
}

/// The lines of a text: its pieces between newlines, without a last piece
/// that is empty.
pub open spec fn lines(text: Seq<char>) -> Seq<Seq<char>> {
    let pieces = crate::text::split(text, '\n');
    if pieces.last().len() == 0 {
        pieces.drop_last()
    } else {
        pieces
    }
}

/// The search path that a configuration text holds: one directory on each
/// line, without the white space around it.
pub open spec fn search_path_of(text: Seq<char>) -> Seq<Seq<char>> {
    Seq::new(lines(text).len(), |i: int| crate::text::trim(lines(text)[i]))
}

/// Reads the search path from the text of the configuration file.
pub fn load_paths(text: &str) -> (paths: Vec<String>)
    ensures
        paths.deep_view() == search_path_of(text@),
{
    let pieces = crate::text::split_str(text, '\n');
    proof {
        crate::text::lemma_split_not_empty(text@, '\n');
    }
    let count = if pieces[pieces.len() - 1].unicode_len() == 0 {
        pieces.len() - 1
    } else {
        pieces.len()
    };
    let mut paths: Vec<String> = Vec::new();
    let mut i: usize = 0;
    while i < count
        invariant
            i <= count <= pieces.len(),
            count == lines(text@).len(),
            pieces.deep_view() == crate::text::split(text@, '\n'),
            paths.len() == i,
            forall|k: int|
                0 <= k < i ==> #[trigger] paths.deep_view()[k] == crate::text::trim(
                    lines(text@)[k],
                ),
        decreases count - i,
    {
        let ghost before = paths.deep_view();
        assert(pieces.deep_view()[i as int] == pieces[i as int]@);
        paths.push(crate::text::trim_str(pieces[i]).to_owned());
        assert(paths.deep_view() == before.push(crate::text::trim(pieces[i as int]@)));
        i += 1;
    }
    paths
}

} // verus!
