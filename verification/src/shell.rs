//! How the terminal launches a shell: the program, its arguments and the
//! environment that give each kind of shell a `[user@host dir]$ ` prompt.
//! The plan is computed here; spawning it on a PTY is the caller's part.

use vstd::prelude::*;
use vstd::string::{StringExecFns, StrSliceExecFns};
use crate::text::{same_chars, single_char_string};

verus! {

/// Shell command used to start a PTY session.
#[derive(Clone, Debug, Eq, PartialEq)]
pub struct ShellCommand {
    pub program: String,
    pub args: Vec<String>,
}

/// PTY character and pixel size.
#[derive(Clone, Copy, Debug, Eq, PartialEq, Structural)]
pub struct PtySize {
    pub rows: u16,
    pub cols: u16,
    pub pixel_width: u16,
    pub pixel_height: u16,
}

impl Default for PtySize {
    fn default() -> (s: Self)
        ensures
            s == (PtySize { rows: 24, cols: 80, pixel_width: 0, pixel_height: 0 }),
    {
        PtySize { rows: 24, cols: 80, pixel_width: 0, pixel_height: 0 }
    }
}

/// Why a PTY operation failed.
#[derive(Clone, Debug, Eq, PartialEq)]
pub enum PtyError {
    SpawnFailed(String),
    Io(String),
    ResizeFailed(String),
    WriterAlreadyTaken,
}

/// The kinds of shell that get a prompt set up.
#[derive(Clone, Copy, Debug, Eq, PartialEq, Structural)]
pub enum ShellKind {
    Cmd,
    PowerShell,
    BashLike,
    Zsh,
    Other,
}

/// The user and machine names shown in the prompt.
#[derive(Clone, Debug, Eq, PartialEq)]
pub struct PromptIdentity {
    pub username: String,
    pub computer_name: String,
}

/// What to launch: program, arguments and extra environment variables.
#[derive(Clone, Debug, Eq, PartialEq)]
pub struct ShellLaunch {
    pub program: String,
    pub args: Vec<String>,
    pub env: Vec<(String, String)>,
}

// ---------------------------------------------------------------------
// Characters.
// ---------------------------------------------------------------------

pub open spec fn ascii_lower(c: char) -> char {
    if 'A' <= c && c <= 'Z' { ((c as u32) + 32) as char } else { c }
}

pub open spec fn lower_all(s: Seq<char>) -> Seq<char> {
    s.map_values(|c: char| ascii_lower(c))
}

/// `c` with an ASCII letter made lower case.
pub fn lower_char(c: char) -> (r: char)
    ensures
        r == ascii_lower(c),
{
    if 'A' <= c && c <= 'Z' {
        let b = c as u8;
        let lower = (b + 32) as char;
        assert(lower == ((c as u32) + 32) as char);
        lower
    } else {
        c
    }
}

/// `s` with ASCII letters made lower case.
pub fn to_ascii_lowercase(s: &str) -> (r: String)
    ensures
        r@ == lower_all(s@),
{
    let mut out = String::new();
    let n = s.unicode_len();
    let mut i: usize = 0;
    while i < n
        invariant
            n == s@.len(),
            i <= n,
            out@ == lower_all(s@.take(i as int)),
        decreases n - i,
    {
        let c = s.get_char(i);
        if 'A' <= c && c <= 'Z' {
            let lower = lower_letter(c);
            out.append(lower);
            assert(lower@ == seq![ascii_lower(c)]);
        } else {
            let piece = s.substring_char(i, i + 1);
            out.append(piece);
        }
        assert(lower_all(s@.take(i + 1)) =~= lower_all(s@.take(i as int)).push(ascii_lower(c)));
        i = i + 1;
        assert(out@ =~= lower_all(s@.take(i as int)));
    }
    assert(s@.take(n as int) =~= s@);
    out
}

fn lower_letter(c: char) -> (r: &'static str)
    requires
        'A' <= c && c <= 'Z',
    ensures
        r@ == seq![ascii_lower(c)],
{
    let v = c as u32;
    let letters = "abcdefghijklmnopqrstuvwxyz";
    proof {
        reveal_strlit("abcdefghijklmnopqrstuvwxyz");
    }
    let r = letters.substring_char((v - 65) as usize, (v - 64) as usize);
    assert(r@ =~= seq![letters@[(v - 65) as int]]);
    assert(letters@[(v - 65) as int] == ((v + 32) as char)) by {
        reveal_strlit("abcdefghijklmnopqrstuvwxyz");
    }
    r
}

/// Position just after the last `/` or `\` of `s`, or 0.
pub open spec fn after_last_separator(s: Seq<char>) -> int
    decreases s.len(),
{
    if s.len() == 0 {
        0
    } else if s.last() == '/' || s.last() == '\\' {
        s.len() as int
    } else {
        after_last_separator(s.drop_last())
    }
}

/// The file name of a path in either `/` or `\` notation.
pub open spec fn spec_shell_file_name(shell: Seq<char>) -> Seq<char> {
    shell.skip(after_last_separator(shell))
}

proof fn lemma_after_last_separator(s: Seq<char>, k: int)
    requires
        0 <= k <= s.len(),
        forall|j: int| k <= j < s.len() ==> s[j] != '/' && s[j] != '\\',
    ensures
        after_last_separator(s) == after_last_separator(s.take(k)),
    decreases s.len() - k,
{
    if k < s.len() {
        assert(s.drop_last() =~= s.take(s.len() - 1));
        lemma_after_last_separator(s.drop_last(), k);
        assert(s.drop_last().take(k) =~= s.take(k));
    } else {
        assert(s.take(k) =~= s);
    }
}

proof fn lemma_after_last_separator_bound(s: Seq<char>)
    ensures
        0 <= after_last_separator(s) <= s.len(),
    decreases s.len(),
{
    if s.len() > 0 {
        lemma_after_last_separator_bound(s.drop_last());
    }
}

pub fn shell_file_name(shell: &str) -> (r: &str)
    ensures
        r@ == spec_shell_file_name(shell@),
{
    let n = shell.unicode_len();
    let mut i: usize = n;
    while i > 0
        invariant
            n == shell@.len(),
            i <= n,
            forall|j: int| i <= j < n ==> shell@[j] != '/' && shell@[j] != '\\',
        decreases i,
    {
        let c = shell.get_char(i - 1);
        if c == '/' || c == '\\' {
            proof {
                lemma_after_last_separator(shell@, i as int);
                assert(shell@.take(i as int).drop_last() =~= shell@.take(i - 1));
            }
            return shell.substring_char(i, n);
        }
        i = i - 1;
    }
    proof {
        lemma_after_last_separator(shell@, 0);
    }
    assert(shell@.skip(0) =~= shell@);
    shell.substring_char(0, n)
}

/// Whether `s` is one of `names`.
pub open spec fn one_of(s: Seq<char>, names: Seq<Seq<char>>) -> bool {
    exists|i: int| 0 <= i < names.len() && names[i] == s
}

pub open spec fn spec_shell_kind(shell: Seq<char>) -> ShellKind {
    let name = lower_all(spec_shell_file_name(shell));
    if name == "cmd"@ || name == "cmd.exe"@ {
        ShellKind::Cmd
    } else if name == "pwsh"@ || name == "pwsh.exe"@ || name == "powershell"@ || name == "powershell.exe"@ {
        ShellKind::PowerShell
    } else if name == "bash"@ || name == "bash.exe"@ || name == "sh"@ || name == "sh.exe"@ || name == "dash"@
        || name == "dash.exe"@ || name == "ksh"@ || name == "ksh.exe"@ || name == "mksh"@ || name == "mksh.exe"@ {
        ShellKind::BashLike
    } else if name == "zsh"@ || name == "zsh.exe"@ {
        ShellKind::Zsh
    } else {
        ShellKind::Other
    }
}

/// The kind of shell a program path names, by its lower-cased file name.
pub fn shell_kind(shell: &str) -> (r: ShellKind)
    ensures
        r == spec_shell_kind(shell@),
{
    let lowered = to_ascii_lowercase(shell_file_name(shell));
    let name = lowered.as_str();
    if same_chars(name, "cmd") || same_chars(name, "cmd.exe") {
        ShellKind::Cmd
    } else if same_chars(name, "pwsh") || same_chars(name, "pwsh.exe") || same_chars(name, "powershell")
        || same_chars(name, "powershell.exe") {
        ShellKind::PowerShell
    } else if same_chars(name, "bash") || same_chars(name, "bash.exe") || same_chars(name, "sh")
        || same_chars(name, "sh.exe") || same_chars(name, "dash") || same_chars(name, "dash.exe")
        || same_chars(name, "ksh") || same_chars(name, "ksh.exe") || same_chars(name, "mksh")
        || same_chars(name, "mksh.exe") {
        ShellKind::BashLike
    } else if same_chars(name, "zsh") || same_chars(name, "zsh.exe") {
        ShellKind::Zsh
    } else {
        ShellKind::Other
    }
}


// ---------------------------------------------------------------------
// Prompt text.
// ---------------------------------------------------------------------

/// How a name is quoted inside a prompt definition.
#[derive(Clone, Copy, Debug, Eq, PartialEq, Structural)]
pub enum EscapeStyle {
    /// POSIX `PS1`: `\`, `$` and backquote get a backslash.
    Posix,
    /// zsh `PROMPT`: as POSIX, and `%` is doubled.
    Zsh,
    /// cmd `prompt` command line: `^ & | < > ( ) " %` get a caret, `$` is doubled.
    Cmd,
    /// PowerShell single-quoted string body: `'` is doubled.
    PowerShellQuote,
}

/// What one character becomes.
pub open spec fn escape_char(style: EscapeStyle, c: char) -> Seq<char> {
    match style {
        EscapeStyle::Posix => if c == '\\' || c == '$' || c == '`' { seq!['\\', c] } else { seq![c] },
        EscapeStyle::Zsh => if c == '\\' || c == '$' || c == '`' {
            seq!['\\', c]
        } else if c == '%' {
            seq!['%', '%']
        } else {
            seq![c]
        },
        EscapeStyle::Cmd => if c == '^' || c == '&' || c == '|' || c == '<' || c == '>' || c == '(' || c == ')'
            || c == '"' || c == '%' {
            seq!['^', c]
        } else if c == '$' {
            seq!['$', '$']
        } else {
            seq![c]
        },
        EscapeStyle::PowerShellQuote => if c == '\'' { seq!['\'', '\''] } else { seq![c] },
    }
}

/// Every character of `s` replaced by its escape.
pub open spec fn escape_all(style: EscapeStyle, s: Seq<char>) -> Seq<char>
    decreases s.len(),
{
    if s.len() == 0 {
        Seq::empty()
    } else {
        escape_all(style, s.drop_last()) + escape_char(style, s.last())
    }
}

fn pair_str(first: char, c: char) -> (r: String)
    ensures
        r@ == seq![first, c],
{
    let mut out = single_char_string(first);
    let second = single_char_string(c);
    out.append(second.as_str());
    assert(out@ =~= seq![first, c]);
    out
}

/// A one-character string.
fn char_str(c: char) -> (r: String)
    ensures
        r@ == seq![c],
{
    single_char_string(c)
}

/// `s` with every character replaced by its escape in `style`.
pub fn escape_text(style: EscapeStyle, s: &str) -> (r: String)
    ensures
        r@ == escape_all(style, s@),
{
    let mut out = String::new();
    let n = s.unicode_len();
    let mut i: usize = 0;
    while i < n
        invariant
            n == s@.len(),
            i <= n,
            out@ == escape_all(style, s@.take(i as int)),
        decreases n - i,
    {
        let c = s.get_char(i);
        assert(s@.take(i + 1).drop_last() =~= s@.take(i as int));
        let piece: String = match style {
            EscapeStyle::Posix => if c == '\\' || c == '$' || c == '`' { pair_str('\\', c) } else { char_str(c) },
            EscapeStyle::Zsh => if c == '\\' || c == '$' || c == '`' {
                pair_str('\\', c)
            } else if c == '%' {
                pair_str('%', '%')
            } else {
                char_str(c)
            },
            EscapeStyle::Cmd => if c == '^' || c == '&' || c == '|' || c == '<' || c == '>' || c == '(' || c == ')'
                || c == '"' || c == '%' {
                pair_str('^', c)
            } else if c == '$' {
                pair_str('$', '$')
            } else {
                char_str(c)
            },
            EscapeStyle::PowerShellQuote => if c == '\'' { pair_str('\'', '\'') } else { char_str(c) },
        };
        assert(piece@ == escape_char(style, c));
        out.append(piece.as_str());
        i = i + 1;
    }
    assert(s@.take(n as int) =~= s@);
    out
}


/// The user and machine names as characters.
pub struct IdentityView {
    pub username: Seq<char>,
    pub computer_name: Seq<char>,
}

impl PromptIdentity {
    pub open spec fn view_identity(&self) -> IdentityView {
        IdentityView { username: self.username@, computer_name: self.computer_name@ }
    }
}

/// `PS1` for POSIX shells: `[user@host dir]$ ` with `~` at home.
pub open spec fn spec_posix_prompt(id: IdentityView) -> Seq<char> {
    "["@ + escape_all(EscapeStyle::Posix, id.username) + "@"@ + escape_all(EscapeStyle::Posix, id.computer_name)
        + " $(if [ \"$PWD\" = \"$HOME\" ]; then printf '~'; else dir=${PWD##*/}; if [ -n \"$dir\" ]; then printf '%s' \"$dir\"; else printf '%s' \"$PWD\"; fi; fi)]$ "@
}

pub fn posix_prompt(identity: &PromptIdentity) -> (r: String)
    ensures
        r@ == spec_posix_prompt(identity.view_identity()),
{
    let mut out = String::new();
    out.append("[");
    out.append(escape_text(EscapeStyle::Posix, identity.username.as_str()).as_str());
    out.append("@");
    out.append(escape_text(EscapeStyle::Posix, identity.computer_name.as_str()).as_str());
    out.append(" $(if [ \"$PWD\" = \"$HOME\" ]; then printf '~'; else dir=${PWD##*/}; if [ -n \"$dir\" ]; then printf '%s' \"$dir\"; else printf '%s' \"$PWD\"; fi; fi)]$ ");
    out
}

/// `PROMPT` for zsh: `[user@host %1~]$ `.
pub open spec fn spec_zsh_prompt(id: IdentityView) -> Seq<char> {
    "["@ + escape_all(EscapeStyle::Zsh, id.username) + "@"@ + escape_all(EscapeStyle::Zsh, id.computer_name)
        + " %1~]$ "@
}

pub fn zsh_prompt(identity: &PromptIdentity) -> (r: String)
    ensures
        r@ == spec_zsh_prompt(identity.view_identity()),
{
    let mut out = String::new();
    out.append("[");
    out.append(escape_text(EscapeStyle::Zsh, identity.username.as_str()).as_str());
    out.append("@");
    out.append(escape_text(EscapeStyle::Zsh, identity.computer_name.as_str()).as_str());
    out.append(" %1~]$ ");
    out
}

/// A PowerShell single-quoted string literal.
pub open spec fn spec_powershell_single_quoted(value: Seq<char>) -> Seq<char> {
    "'"@ + escape_all(EscapeStyle::PowerShellQuote, value) + "'"@
}

pub fn powershell_single_quoted(value: &str) -> (r: String)
    ensures
        r@ == spec_powershell_single_quoted(value@),
{
    let mut out = String::new();
    out.append("'");
    out.append(escape_text(EscapeStyle::PowerShellQuote, value).as_str());
    out.append("'");
    out
}

/// A PowerShell `prompt` function showing `[user@host dir]$ `.
pub open spec fn spec_powershell_prompt_script(id: IdentityView) -> Seq<char> {
    "function global:prompt { $path = (Get-Location).Path; if ($path -eq $HOME) { $dir = '~' } else { $trimmed = $path.TrimEnd([char[]]@([System.IO.Path]::DirectorySeparatorChar, [System.IO.Path]::AltDirectorySeparatorChar)); $dir = [System.IO.Path]::GetFileName($trimmed); if ([string]::IsNullOrEmpty($dir)) { $dir = $path } }; '[' + "@ + spec_powershell_single_quoted(id.username) + " + '@' + "@
        + spec_powershell_single_quoted(id.computer_name) + " + ' ' + $dir + ']$ ' }"@
}

pub fn powershell_prompt_script(identity: &PromptIdentity) -> (r: String)
    ensures
        r@ == spec_powershell_prompt_script(identity.view_identity()),
{
    let mut out = String::new();
    out.append("function global:prompt { $path = (Get-Location).Path; if ($path -eq $HOME) { $dir = '~' } else { $trimmed = $path.TrimEnd([char[]]@([System.IO.Path]::DirectorySeparatorChar, [System.IO.Path]::AltDirectorySeparatorChar)); $dir = [System.IO.Path]::GetFileName($trimmed); if ([string]::IsNullOrEmpty($dir)) { $dir = $path } }; '[' + ");
    out.append(powershell_single_quoted(identity.username.as_str()).as_str());
    out.append(" + '@' + ");
    out.append(powershell_single_quoted(identity.computer_name.as_str()).as_str());
    out.append(" + ' ' + $dir + ']$ ' }");
    out
}

/// A name quoted for a cmd `prompt` command line.
pub fn cmd_prompt_command_literal(value: &str) -> (r: String)
    ensures
        r@ == escape_all(EscapeStyle::Cmd, value@),
{
    escape_text(EscapeStyle::Cmd, value)
}

/// `[user@host ` as cmd prompt text.
pub open spec fn cmd_prompt_prefix(id: IdentityView) -> Seq<char> {
    "["@ + escape_all(EscapeStyle::Cmd, id.username) + "@"@ + escape_all(EscapeStyle::Cmd, id.computer_name) + " "@
}

/// A cmd command that sets the prompt to `[user@host dir]$ `, with `~`
/// for the profile directory and the full path at a drive root.
pub open spec fn spec_cmd_update_prompt_command(id: IdentityView) -> Seq<char> {
    let p = cmd_prompt_prefix(id);
    "("@ + "for %I in (.) do @if /I \"%~fI\"==\"%USERPROFILE%\" (prompt "@ + p + "~]$$$S) else if \"%~nxI\"==\"\" (prompt "@ + p + "%~fI]$$$S) else (prompt "@ + p + "%~nxI]$$$S)"@ + ")"@
}

pub fn cmd_update_prompt_command(identity: &PromptIdentity) -> (r: String)
    ensures
        r@ == spec_cmd_update_prompt_command(identity.view_identity()),
{
    let mut prefix = String::new();
    prefix.append("[");
    prefix.append(cmd_prompt_command_literal(identity.username.as_str()).as_str());
    prefix.append("@");
    prefix.append(cmd_prompt_command_literal(identity.computer_name.as_str()).as_str());
    prefix.append(" ");
    let mut out = String::new();
    out.append("(");
    out.append("for %I in (.) do @if /I \"%~fI\"==\"%USERPROFILE%\" (prompt ");
    out.append(prefix.as_str());
    out.append("~]$$$S) else if \"%~nxI\"==\"\" (prompt ");
    out.append(prefix.as_str());
    out.append("%~fI]$$$S) else (prompt ");
    out.append(prefix.as_str());
    out.append("%~nxI]$$$S)");
    out.append(")");
    out
}

/// The cmd `/K` script: clear the screen, set the prompt, and make the
/// directory-changing commands update it.
pub open spec fn spec_cmd_startup_script(id: IdentityView) -> Seq<char> {
    let u = spec_cmd_update_prompt_command(id);
    "cls"@ + " & "@ + u + " & "@ + "doskey cd=cd $* ^& "@ + u + " & "@ + "doskey cd..=cd .. ^& "@ + u + " & "@ + "doskey cd\\=cd \\ ^& "@ + u + " & "@ + "doskey chdir=chdir $* ^& "@ + u + " & "@ + "doskey pushd=pushd $* ^& "@ + u + " & "@ + "doskey popd=popd ^& "@ + u
}

pub fn cmd_startup_script(identity: &PromptIdentity) -> (r: String)
    ensures
        r@ == spec_cmd_startup_script(identity.view_identity()),
{
    let update = cmd_update_prompt_command(identity);
    let mut out = String::new();
    out.append("cls");
    out.append(" & ");
    out.append(update.as_str());
    out.append(" & ");
    out.append("doskey cd=cd $* ^& ");
    out.append(update.as_str());
    out.append(" & ");
    out.append("doskey cd..=cd .. ^& ");
    out.append(update.as_str());
    out.append(" & ");
    out.append("doskey cd\\=cd \\ ^& ");
    out.append(update.as_str());
    out.append(" & ");
    out.append("doskey chdir=chdir $* ^& ");
    out.append(update.as_str());
    out.append(" & ");
    out.append("doskey pushd=pushd $* ^& ");
    out.append(update.as_str());
    out.append(" & ");
    out.append("doskey popd=popd ^& ");
    out.append(update.as_str());
    out
}


// ---------------------------------------------------------------------
// Shell arguments.
// ---------------------------------------------------------------------

/// Number of leading `-` and `/` characters.
pub open spec fn option_marker_len(s: Seq<char>) -> nat
    decreases s.len(),
{
    if s.len() > 0 && (s[0] == '-' || s[0] == '/') {
        1 + option_marker_len(s.drop_first())
    } else {
        0
    }
}

/// The option name of an argument written with leading `-` or `/`, lower
/// case; none for an argument without such a marker.
pub open spec fn spec_normalized_arg(arg: Seq<char>) -> Option<Seq<char>> {
    if option_marker_len(arg) > 0 {
        Some(lower_all(arg.skip(option_marker_len(arg) as int)))
    } else {
        None
    }
}

proof fn lemma_option_marker_len(s: Seq<char>, k: int)
    requires
        0 <= k <= s.len(),
        forall|j: int| 0 <= j < k ==> s[j] == '-' || s[j] == '/',
        k == s.len() || !(s[k] == '-' || s[k] == '/'),
    ensures
        option_marker_len(s) == k,
    decreases k,
{
    if k > 0 {
        lemma_option_marker_len(s.drop_first(), k - 1);
    }
}

pub fn normalized_arg(arg: &str) -> (r: Option<String>)
    ensures
        match r {
            Some(n) => spec_normalized_arg(arg@) == Some(n@),
            None => spec_normalized_arg(arg@) is None,
        },
{
    let n = arg.unicode_len();
    let mut k: usize = 0;
    while k < n && (arg.get_char(k) == '-' || arg.get_char(k) == '/')
        invariant
            n == arg@.len(),
            k <= n,
            forall|j: int| 0 <= j < k ==> arg@[j] == '-' || arg@[j] == '/',
        decreases n - k,
    {
        k = k + 1;
    }
    proof {
        lemma_option_marker_len(arg@, k as int);
    }
    if k == 0 {
        return None;
    }
    let rest = arg.substring_char(k, n);
    assert(rest@ =~= arg@.skip(k as int));
    Some(to_ascii_lowercase(rest))
}

pub open spec fn strings_view(v: Seq<String>) -> Seq<Seq<char>> {
    v.map_values(|s: String| s@)
}

/// Some argument is the option `expected`.
pub open spec fn spec_arg_present(args: Seq<Seq<char>>, expected: Seq<char>) -> bool {
    exists|i: int| 0 <= i < args.len() && spec_normalized_arg(#[trigger] args[i]) == Some(expected)
}

pub fn arg_present(args: &Vec<String>, expected: &str) -> (r: bool)
    ensures
        r == spec_arg_present(strings_view(args@), expected@),
{
    let mut i: usize = 0;
    while i < args.len()
        invariant
            i <= args@.len(),
            forall|j: int| 0 <= j < i ==> spec_normalized_arg(#[trigger] strings_view(args@)[j]) != Some(expected@),
        decreases args@.len() - i,
    {
        assert(strings_view(args@)[i as int] == args@[i as int]@);
        match normalized_arg(args[i].as_str()) {
            Some(name) => if same_chars(name.as_str(), expected) {
                return true;
            },
            None => {},
        }
        i = i + 1;
    }
    false
}

/// Options with which PowerShell runs a command or script and exits.
pub open spec fn powershell_command_option(name: Seq<char>) -> bool {
    name == "command"@ || name == "c"@ || name == "file"@ || name == "f"@ || name == "encodedcommand"@ || name == "e"@
}

/// Options with which cmd runs a command.
pub open spec fn cmd_command_option(name: Seq<char>) -> bool {
    name == "c"@ || name == "k"@
}

pub open spec fn spec_powershell_args_execute_command(args: Seq<Seq<char>>) -> bool {
    exists|i: int| 0 <= i < args.len() && (spec_normalized_arg(#[trigger] args[i]) matches Some(n) && powershell_command_option(n))
}

pub open spec fn spec_cmd_args_execute_command(args: Seq<Seq<char>>) -> bool {
    exists|i: int| 0 <= i < args.len() && (spec_normalized_arg(#[trigger] args[i]) matches Some(n) && cmd_command_option(n))
}

pub fn powershell_args_execute_command(args: &Vec<String>) -> (r: bool)
    ensures
        r == spec_powershell_args_execute_command(strings_view(args@)),
{
    let mut i: usize = 0;
    while i < args.len()
        invariant
            i <= args@.len(),
            forall|j: int| 0 <= j < i ==> !(spec_normalized_arg(#[trigger] strings_view(args@)[j]) matches Some(n)
                && powershell_command_option(n)),
        decreases args@.len() - i,
    {
        assert(strings_view(args@)[i as int] == args@[i as int]@);
        match normalized_arg(args[i].as_str()) {
            Some(name) => {
                let n = name.as_str();
                if same_chars(n, "command") || same_chars(n, "c") || same_chars(n, "file") || same_chars(n, "f")
                    || same_chars(n, "encodedcommand") || same_chars(n, "e") {
                    return true;
                }
            },
            None => {},
        }
        i = i + 1;
    }
    false
}

pub fn cmd_args_execute_command(args: &Vec<String>) -> (r: bool)
    ensures
        r == spec_cmd_args_execute_command(strings_view(args@)),
{
    let mut i: usize = 0;
    while i < args.len()
        invariant
            i <= args@.len(),
            forall|j: int| 0 <= j < i ==> !(spec_normalized_arg(#[trigger] strings_view(args@)[j]) matches Some(n)
                && cmd_command_option(n)),
        decreases args@.len() - i,
    {
        assert(strings_view(args@)[i as int] == args@[i as int]@);
        match normalized_arg(args[i].as_str()) {
            Some(name) => {
                let n = name.as_str();
                if same_chars(n, "c") || same_chars(n, "k") {
                    return true;
                }
            },
            None => {},
        }
        i = i + 1;
    }
    false
}

// ---------------------------------------------------------------------
// Launch plans.
// ---------------------------------------------------------------------

/// A launch plan with text as characters.
pub struct LaunchView {
    pub program: Seq<char>,
    pub args: Seq<Seq<char>>,
    pub env: Seq<(Seq<char>, Seq<char>)>,
}

impl ShellLaunch {
    pub open spec fn view_launch(&self) -> LaunchView {
        LaunchView {
            program: self.program@,
            args: strings_view(self.args@),
            env: self.env@.map_values(|e: (String, String)| (e.0@, e.1@)),
        }
    }
}

/// The arguments that keep cmd open with the prompt set up, after `existing`.
pub open spec fn spec_cmd_interactive_args(existing: Seq<Seq<char>>, id: IdentityView) -> Seq<Seq<char>> {
    (if spec_arg_present(existing, "q"@) { Seq::empty() } else { seq!["/Q"@] })
        + (if spec_arg_present(existing, "d"@) { Seq::empty() } else { seq!["/D"@] })
        + seq!["/K"@, spec_cmd_startup_script(id)]
}

/// The arguments that keep PowerShell open with the prompt function, after `existing`.
pub open spec fn spec_powershell_prompt_args(existing: Seq<Seq<char>>, id: IdentityView) -> Seq<Seq<char>> {
    (if spec_arg_present(existing, "nologo"@) { Seq::empty() } else { seq!["-NoLogo"@] })
        + (if spec_arg_present(existing, "noexit"@) { Seq::empty() } else { seq!["-NoExit"@] })
        + seq!["-Command"@, spec_powershell_prompt_script(id)]
}

/// Arguments that install the prompt header.
pub open spec fn spec_header_args(kind: ShellKind, existing: Seq<Seq<char>>, id: IdentityView) -> Seq<Seq<char>> {
    if kind == ShellKind::PowerShell && !spec_powershell_args_execute_command(existing) {
        spec_powershell_prompt_args(existing, id)
    } else {
        Seq::empty()
    }
}

/// Environment variables that install the prompt header.
pub open spec fn spec_header_env(kind: ShellKind, id: IdentityView) -> Seq<(Seq<char>, Seq<char>)> {
    if kind == ShellKind::BashLike {
        seq![("PS1"@, spec_posix_prompt(id))]
    } else if kind == ShellKind::Zsh {
        seq![("PROMPT"@, spec_zsh_prompt(id))]
    } else {
        Seq::empty()
    }
}

/// How the default shell `shell` is launched (`windows`: on Windows).
pub open spec fn spec_default_launch(shell: Seq<char>, id: IdentityView, windows: bool) -> LaunchView {
    let kind = spec_shell_kind(shell);
    LaunchView {
        program: shell,
        args: (if windows && kind == ShellKind::Cmd { spec_cmd_interactive_args(Seq::empty(), id) } else { Seq::empty() })
            + spec_header_args(kind, Seq::empty(), id),
        env: spec_header_env(kind, id),
    }
}

/// How a configured shell is launched: its own arguments first.
pub open spec fn spec_configured_launch(program: Seq<char>, args: Seq<Seq<char>>, id: IdentityView, windows: bool) -> LaunchView {
    let kind = spec_shell_kind(program);
    LaunchView {
        program,
        args: args + (if windows && kind == ShellKind::Cmd && !spec_cmd_args_execute_command(args) {
            spec_cmd_interactive_args(args, id)
        } else {
            Seq::empty()
        }) + spec_header_args(kind, args, id),
        env: spec_header_env(kind, id),
    }
}

fn push_string(args: &mut Vec<String>, s: String)
    ensures
        strings_view(final(args)@) == strings_view(old(args)@).push(s@),
{
    let ghost s_view = s@;
    args.push(s);
    assert(strings_view(args@) =~= strings_view(old(args)@).push(s_view));
}

fn push_literal(args: &mut Vec<String>, s: &str)
    ensures
        strings_view(final(args)@) == strings_view(old(args)@).push(s@),
{
    push_string(args, s.to_owned());
}

fn add_cmd_interactive_args(existing: &Vec<String>, identity: &PromptIdentity, out: &mut Vec<String>)
    ensures
        strings_view(final(out)@) == strings_view(old(out)@)
            + spec_cmd_interactive_args(strings_view(existing@), identity.view_identity()),
{
    let ghost start = strings_view(out@);
    if !arg_present(existing, "q") {
        push_literal(out, "/Q");
    }
    let ghost after_q = strings_view(out@);
    if !arg_present(existing, "d") {
        push_literal(out, "/D");
    }
    let ghost after_d = strings_view(out@);
    push_literal(out, "/K");
    push_string(out, cmd_startup_script(identity));
    assert(strings_view(out@) =~= start + spec_cmd_interactive_args(strings_view(existing@), identity.view_identity()));
}

fn add_header_args(kind: ShellKind, existing: &Vec<String>, identity: &PromptIdentity, out: &mut Vec<String>)
    ensures
        strings_view(final(out)@) == strings_view(old(out)@)
            + spec_header_args(kind, strings_view(existing@), identity.view_identity()),
{
    let ghost start = strings_view(out@);
    if kind == ShellKind::PowerShell && !powershell_args_execute_command(existing) {
        if !arg_present(existing, "nologo") {
            push_literal(out, "-NoLogo");
        }
        if !arg_present(existing, "noexit") {
            push_literal(out, "-NoExit");
        }
        push_literal(out, "-Command");
        push_string(out, powershell_prompt_script(identity));
        assert(strings_view(out@) =~= start
            + spec_powershell_prompt_args(strings_view(existing@), identity.view_identity()));
    } else {
        assert(strings_view(out@) =~= start + Seq::<Seq<char>>::empty());
    }
}

fn header_env(kind: ShellKind, identity: &PromptIdentity) -> (r: Vec<(String, String)>)
    ensures
        r@.map_values(|e: (String, String)| (e.0@, e.1@)) == spec_header_env(kind, identity.view_identity()),
{
    let mut env: Vec<(String, String)> = Vec::new();
    if kind == ShellKind::BashLike {
        env.push(("PS1".to_owned(), posix_prompt(identity)));
    } else if kind == ShellKind::Zsh {
        env.push(("PROMPT".to_owned(), zsh_prompt(identity)));
    }
    assert(env@.map_values(|e: (String, String)| (e.0@, e.1@)) =~= spec_header_env(kind, identity.view_identity()));
    env
}

/// The launch plan for the default shell `shell`.
pub fn command_for_shell_with_identity(shell: &str, identity: &PromptIdentity, windows: bool) -> (r: ShellLaunch)
    ensures
        r.view_launch() == spec_default_launch(shell@, identity.view_identity(), windows),
{
    let kind = shell_kind(shell);
    let none: Vec<String> = Vec::new();
    assert(strings_view(none@) =~= Seq::<Seq<char>>::empty());
    let mut args: Vec<String> = Vec::new();
    assert(strings_view(args@) =~= Seq::<Seq<char>>::empty());
    if windows && kind == ShellKind::Cmd {
        add_cmd_interactive_args(&none, identity, &mut args);
    }
    let ghost before_header = strings_view(args@);
    add_header_args(kind, &none, identity, &mut args);
    let launch = ShellLaunch { program: shell.to_owned(), args, env: header_env(kind, identity) };
    assert(launch.view_launch().args =~= spec_default_launch(shell@, identity.view_identity(), windows).args);
    launch
}

/// The launch plan for a configured shell.
pub fn command_for_configured_shell_with_identity(shell: &ShellCommand, identity: &PromptIdentity, windows: bool) -> (r: ShellLaunch)
    ensures
        r.view_launch() == spec_configured_launch(shell.program@, strings_view(shell.args@), identity.view_identity(), windows),
{
    let kind = shell_kind(shell.program.as_str());
    let mut args: Vec<String> = Vec::new();
    let mut i: usize = 0;
    while i < shell.args.len()
        invariant
            i <= shell.args@.len(),
            strings_view(args@) == strings_view(shell.args@).take(i as int),
        decreases shell.args@.len() - i,
    {
        push_string(&mut args, shell.args[i].clone());
        i = i + 1;
        assert(strings_view(args@) =~= strings_view(shell.args@).take(i as int));
    }
    assert(strings_view(shell.args@).take(i as int) =~= strings_view(shell.args@));
    let ghost base = strings_view(args@);
    if windows && kind == ShellKind::Cmd && !cmd_args_execute_command(&shell.args) {
        add_cmd_interactive_args(&shell.args, identity, &mut args);
    }
    let ghost mid = strings_view(args@);
    add_header_args(kind, &shell.args, identity, &mut args);
    let launch = ShellLaunch { program: shell.program.clone(), args, env: header_env(kind, identity) };
    assert(launch.view_launch().args =~= spec_configured_launch(shell.program@, strings_view(shell.args@),
        identity.view_identity(), windows).args);
    launch
}
} // verus!
