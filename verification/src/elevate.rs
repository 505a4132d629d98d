//! Relaunching this program with administrative rights.
//!
//! The elevated copy gets the requested verb followed by `--elevated --result-file <path>`,
//! runs the operation and writes one line to that file: `OK:` on success, `ERR:<payload>` on
//! failure. This module builds those arguments, the scripts each platform's prompt runs
//! (PowerShell, AppleScript, `sudo` in a terminal) and decides what the caller reports from the
//! result line and from what the launcher said.
use vstd::prelude::*;
use crate::codes;
use crate::error::{AppError, detail_of, opt_view};
use crate::runner::err_parts;
use crate::text::{
    append_str, chars_of, string_of, str_eq, expand, lemma_expand_step, has_suffix, spec_trim,
    trim_chars, is_first, find_char, lemma_first_unique, slice_chars, lemma_trim_unchanged, is_ws,
};

verus! {

/// Flag telling the elevated copy where to report its outcome; always followed by the path.
pub const RESULT_FILE_ARG: &'static str = "--result-file";

/// Marker argument of the elevated copy: seeing it means the elevation already happened.
pub const ELEVATED_ARG: &'static str = "--elevated";

/// Exit status of `pkexec` when the user dismissed the authentication dialog.
pub const PKEXEC_CANCELLED: i32 = 126;

/// The texts of a list of owned strings.
pub open spec fn texts(v: Seq<String>) -> Seq<Seq<char>> {
    v.map_values(|s: String| s@)
}

/// The first position of `key` among `args`.
pub open spec fn is_first_arg(args: Seq<String>, key: Seq<char>, i: int) -> bool {
    0 <= i < args.len() && args[i]@ == key && forall|k: int| 0 <= k < i ==> args[k]@ != key
}

/// Removes `--result-file <path>` from `args` and returns the path.
///
/// Only the first occurrence of the flag counts. A flag with nothing after it is removed and
/// yields no path.
pub fn take_result_file_arg(args: &mut Vec<String>) -> (r: Option<String>)
    ensures
        (forall|k: int| 0 <= k < old(args).len() ==> old(args)@[k]@ != RESULT_FILE_ARG@) ==> {
            &&& r is None
            &&& final(args)@ == old(args)@
        },
        forall|i: int| #[trigger] is_first_arg(old(args)@, RESULT_FILE_ARG@, i) ==> {
            if i + 1 < old(args).len() {
                &&& r == Some(old(args)@[i + 1])
                &&& final(args)@ == old(args)@.remove(i).remove(i)
            } else {
                &&& r is None
                &&& final(args)@ == old(args)@.remove(i)
            }
        },
{
    let mut i: usize = 0;
    while i < args.len()
        invariant
            i <= args.len(),
            args@ == old(args)@,
            forall|k: int| 0 <= k < i ==> args@[k]@ != RESULT_FILE_ARG@,
        decreases args.len() - i,
    {
        if str_eq(args[i].as_str(), RESULT_FILE_ARG) {
            assert(is_first_arg(old(args)@, RESULT_FILE_ARG@, i as int));
            assert forall|j: int| is_first_arg(old(args)@, RESULT_FILE_ARG@, j) implies j == i by {
                if j < i {
                    assert(old(args)@[j]@ != RESULT_FILE_ARG@);
                } else if j > i {
                    assert(old(args)@[i as int]@ != RESULT_FILE_ARG@);
                }
            }
            args.remove(i);
            if i < args.len() {
                let path = args.remove(i);
                return Some(path);
            } else {
                return None;
            }
        }
        i = i + 1;
    }
    None
}

/// The arguments the elevated copy is started with: the requested ones, then the marker and
/// the result file.
pub fn elevated_args(requested: &Vec<String>, result_path: &str) -> (r: Vec<String>)
    ensures
        texts(r@) == texts(requested@) + seq![ELEVATED_ARG@, RESULT_FILE_ARG@, result_path@],
{
    let mut r: Vec<String> = Vec::new();
    let mut i: usize = 0;
    while i < requested.len()
        invariant
            i <= requested.len(),
            texts(r@) == texts(requested@.subrange(0, i as int)),
        decreases requested.len() - i,
    {
        let ghost before = r@;
        let x = String::from_str(requested[i].as_str());
        r.push(x);
        proof {
            assert(r@ == before.push(x));
            assert(texts(r@) =~= texts(before).push(requested@[i as int]@));
            assert(requested@.subrange(0, i + 1) =~= requested@.subrange(0, i as int).push(requested@[i as int]));
            assert(texts(requested@.subrange(0, i + 1)) =~= texts(requested@.subrange(0, i as int)).push(requested@[i as int]@));
        }
        i = i + 1;
    }
    assert(requested@.subrange(0, requested.len() as int) =~= requested@);
    r.push(String::from_str(ELEVATED_ARG));
    r.push(String::from_str(RESULT_FILE_ARG));
    r.push(String::from_str(result_path));
    assert(texts(r@) =~= texts(requested@) + seq![ELEVATED_ARG@, RESULT_FILE_ARG@, result_path@]);
    r
}

/// Whether this process is the copy started through an elevation prompt: its command line
/// carries the marker.
pub fn is_elevated_child(args: &[String]) -> (b: bool)
    ensures
        b == exists|k: int| 0 <= k < args.len() && args@[k]@ == ELEVATED_ARG@,
{
    let mut i: usize = 0;
    while i < args.len()
        invariant
            i <= args.len(),
            forall|k: int| 0 <= k < i ==> args@[k]@ != ELEVATED_ARG@,
        decreases args.len() - i,
    {
        if str_eq(args[i].as_str(), ELEVATED_ARG) {
            return true;
        }
        i = i + 1;
    }
    false
}

/// The marker procfs appends to the path of an executable that was replaced on disk.
pub open spec fn deleted_marker() -> Seq<char> {
    " (deleted)"@
}

/// The path with the ` (deleted)` marker removed, if it carries one.
pub fn strip_deleted_marker(path: &str) -> (r: Option<String>)
    ensures
        match r {
            Some(t) => has_suffix(path@, deleted_marker()) && t@ == path@.subrange(0, path@.len() - deleted_marker().len()),
            None => !has_suffix(path@, deleted_marker()),
        },
{
    let v = chars_of(path);
    let m = chars_of(" (deleted)");
    if crate::text::ends_with(v.as_slice(), m.as_slice()) {
        let head = slice_chars(v.as_slice(), 0, v.len() - m.len());
        Some(string_of(head.as_slice()))
    } else {
        None
    }
}

/// The executable to relaunch: the replacement installed at the original path when the
/// running one was deleted and that replacement is a file, else the running one.
pub fn executable_to_launch(exe: &str, replacement_is_file: bool) -> (r: String)
    ensures
        r@ == (if has_suffix(exe@, deleted_marker()) && replacement_is_file {
            exe@.subrange(0, exe@.len() - deleted_marker().len())
        } else {
            exe@
        }),
{
    match strip_deleted_marker(exe) {
        Some(t) => if replacement_is_file {
            t
        } else {
            String::from_str(exe)
        },
        None => String::from_str(exe),
    }
}

/// How a POSIX shell single-quoted string spells `c`.
pub open spec fn shell_escape(c: char) -> Seq<char> {
    if c == '\'' {
        seq!['\'', '\\', '\'', '\'']
    } else {
        seq![c]
    }
}

/// How a PowerShell single-quoted string spells `c`.
pub open spec fn powershell_escape(c: char) -> Seq<char> {
    if c == '\'' {
        seq!['\'', '\'']
    } else {
        seq![c]
    }
}

/// How an AppleScript double-quoted string spells `c`.
pub open spec fn applescript_escape(c: char) -> Seq<char> {
    if c == '\\' {
        seq!['\\', '\\']
    } else if c == '"' {
        seq!['\\', '"']
    } else {
        seq![c]
    }
}

/// `value` single-quoted for a POSIX shell.
pub open spec fn spec_quote_shell(value: Seq<char>) -> Seq<char> {
    seq!['\''] + expand(value, |c: char| shell_escape(c)) + seq!['\'']
}

/// `value` single-quoted for PowerShell.
pub open spec fn spec_quote_powershell(value: Seq<char>) -> Seq<char> {
    seq!['\''] + expand(value, |c: char| powershell_escape(c)) + seq!['\'']
}

/// `value` escaped for an AppleScript double-quoted string.
pub open spec fn spec_quote_applescript(value: Seq<char>) -> Seq<char> {
    expand(value, |c: char| applescript_escape(c))
}

fn push_shell_quoted(out: &mut Vec<char>, value: &str)
    ensures
        final(out)@ == old(out)@ + spec_quote_shell(value@),
{
    let v = chars_of(value);
    let ghost f = |c: char| shell_escape(c);
    let ghost start = out@;
    out.push('\'');
    let mut i: usize = 0;
    while i < v.len()
        invariant
            i <= v.len(),
            out@ == start + seq!['\''] + expand(v@.subrange(0, i as int), f),
            f == (|c: char| shell_escape(c)),
        decreases v.len() - i,
    {
        let c = v[i];
        proof {
            lemma_expand_step(v@, i as int, f);
        }
        if c == '\'' {
            out.push('\'');
            out.push('\\');
            out.push('\'');
            out.push('\'');
            assert(f(c) =~= seq!['\'', '\\', '\'', '\'']);
        } else {
            out.push(c);
            assert(f(c) =~= seq![c]);
        }
        i = i + 1;
        assert(out@ =~= start + seq!['\''] + expand(v@.subrange(0, i as int), f));
    }
    assert(v@.subrange(0, v.len() as int) =~= v@);
    out.push('\'');
    assert(out@ =~= start + spec_quote_shell(value@));
}

fn push_powershell_quoted(out: &mut Vec<char>, value: &str)
    ensures
        final(out)@ == old(out)@ + spec_quote_powershell(value@),
{
    let v = chars_of(value);
    let ghost f = |c: char| powershell_escape(c);
    let ghost start = out@;
    out.push('\'');
    let mut i: usize = 0;
    while i < v.len()
        invariant
            i <= v.len(),
            out@ == start + seq!['\''] + expand(v@.subrange(0, i as int), f),
            f == (|c: char| powershell_escape(c)),
        decreases v.len() - i,
    {
        let c = v[i];
        proof {
            lemma_expand_step(v@, i as int, f);
        }
        if c == '\'' {
            out.push('\'');
            out.push('\'');
            assert(f(c) =~= seq!['\'', '\'']);
        } else {
            out.push(c);
            assert(f(c) =~= seq![c]);
        }
        i = i + 1;
        assert(out@ =~= start + seq!['\''] + expand(v@.subrange(0, i as int), f));
    }
    assert(v@.subrange(0, v.len() as int) =~= v@);
    out.push('\'');
    assert(out@ =~= start + spec_quote_powershell(value@));
}

fn push_applescript_escaped(out: &mut Vec<char>, value: &[char])
    ensures
        final(out)@ == old(out)@ + spec_quote_applescript(value@),
{
    let ghost f = |c: char| applescript_escape(c);
    let ghost start = out@;
    let mut i: usize = 0;
    while i < value.len()
        invariant
            i <= value.len(),
            out@ == start + expand(value@.subrange(0, i as int), f),
            f == (|c: char| applescript_escape(c)),
        decreases value.len() - i,
    {
        let c = value[i];
        proof {
            lemma_expand_step(value@, i as int, f);
        }
        if c == '\\' {
            out.push('\\');
            out.push('\\');
            assert(f(c) =~= seq!['\\', '\\']);
        } else if c == '"' {
            out.push('\\');
            out.push('"');
            assert(f(c) =~= seq!['\\', '"']);
        } else {
            out.push(c);
            assert(f(c) =~= seq![c]);
        }
        i = i + 1;
        assert(out@ =~= start + expand(value@.subrange(0, i as int), f));
    }
    assert(value@.subrange(0, value.len() as int) =~= value@);
}

/// Single-quotes `value` for a POSIX shell: every `'` becomes `'\''`.
pub fn quote_shell(value: &str) -> (r: String)
    ensures
        r@ == spec_quote_shell(value@),
{
    let mut out: Vec<char> = Vec::new();
    push_shell_quoted(&mut out, value);
    string_of(out.as_slice())
}

/// Single-quotes `value` for PowerShell: every `'` is doubled.
pub fn quote_powershell(value: &str) -> (r: String)
    ensures
        r@ == spec_quote_powershell(value@),
{
    let mut out: Vec<char> = Vec::new();
    push_powershell_quoted(&mut out, value);
    string_of(out.as_slice())
}

/// Escapes `value` for an AppleScript double-quoted string: `\` and `"` get a backslash.
pub fn quote_applescript(value: &str) -> (r: String)
    ensures
        r@ == spec_quote_applescript(value@),
{
    let v = chars_of(value);
    let mut out: Vec<char> = Vec::new();
    push_applescript_escaped(&mut out, v.as_slice());
    string_of(out.as_slice())
}

/// Each argument shell-quoted and preceded by a space.
pub open spec fn shell_words(args: Seq<Seq<char>>) -> Seq<char>
    decreases args.len(),
{
    if args.len() == 0 {
        Seq::empty()
    } else {
        shell_words(args.drop_last()) + seq![' '] + spec_quote_shell(args.last())
    }
}

/// The command line `exe args...`, every word shell-quoted.
pub open spec fn spec_shell_command(exe: Seq<char>, args: Seq<Seq<char>>) -> Seq<char> {
    spec_quote_shell(exe) + shell_words(args)
}

fn push_shell_command(out: &mut Vec<char>, exe: &str, args: &Vec<String>)
    ensures
        final(out)@ == old(out)@ + spec_shell_command(exe@, texts(args@)),
{
    let ghost start = out@;
    push_shell_quoted(out, exe);
    let mut i: usize = 0;
    while i < args.len()
        invariant
            i <= args.len(),
            out@ == start + spec_quote_shell(exe@) + shell_words(texts(args@.subrange(0, i as int))),
        decreases args.len() - i,
    {
        let ghost before = out@;
        out.push(' ');
        push_shell_quoted(out, args[i].as_str());
        proof {
            let t = texts(args@.subrange(0, i + 1));
            assert(t.drop_last() =~= texts(args@.subrange(0, i as int)));
            assert(t.last() == args@[i as int]@);
        }
        i = i + 1;
        assert(out@ =~= start + spec_quote_shell(exe@) + shell_words(texts(args@.subrange(0, i as int))));
    }
    assert(args@.subrange(0, args.len() as int) =~= args@);
    assert(out@ =~= start + spec_shell_command(exe@, texts(args@)));
}

/// The shell command line that runs `exe` with `args`.
pub fn shell_command(exe: &str, args: &Vec<String>) -> (r: String)
    ensures
        r@ == spec_shell_command(exe@, texts(args@)),
{
    let mut out: Vec<char> = Vec::new();
    push_shell_command(&mut out, exe, args);
    string_of(out.as_slice())
}

/// The script a terminal window runs when no polkit agent is available: `sudo` the command,
/// then keep the window open until Enter is pressed.
pub open spec fn spec_sudo_script(exe: Seq<char>, args: Seq<Seq<char>>) -> Seq<char> {
    "sudo -- "@ + spec_shell_command(exe, args)
        + " ; echo ; echo \"Press Enter to close this window.\" ; read _"@
}

/// The `sh -c` script for the terminal fallback.
pub fn sudo_script(exe: &str, args: &Vec<String>) -> (r: String)
    ensures
        r@ == spec_sudo_script(exe@, texts(args@)),
{
    let mut out: Vec<char> = Vec::new();
    append_str(&mut out, "sudo -- ");
    push_shell_command(&mut out, exe, args);
    append_str(&mut out, " ; echo ; echo \"Press Enter to close this window.\" ; read _");
    string_of(out.as_slice())
}

/// The AppleScript that runs the command with administrator privileges.
pub open spec fn spec_applescript(exe: Seq<char>, args: Seq<Seq<char>>) -> Seq<char> {
    "do shell script \""@ + spec_quote_applescript(spec_shell_command(exe, args))
        + "\" with administrator privileges"@
}

/// The `osascript -e` script for the macOS prompt.
pub fn applescript(exe: &str, args: &Vec<String>) -> (r: String)
    ensures
        r@ == spec_applescript(exe@, texts(args@)),
{
    let mut cmd: Vec<char> = Vec::new();
    push_shell_command(&mut cmd, exe, args);
    let mut out: Vec<char> = Vec::new();
    append_str(&mut out, "do shell script \"");
    push_applescript_escaped(&mut out, cmd.as_slice());
    append_str(&mut out, "\" with administrator privileges");
    string_of(out.as_slice())
}

/// The arguments PowerShell-quoted and separated by commas.
pub open spec fn powershell_list(args: Seq<Seq<char>>) -> Seq<char>
    decreases args.len(),
{
    if args.len() == 0 {
        Seq::empty()
    } else if args.len() == 1 {
        spec_quote_powershell(args[0])
    } else {
        powershell_list(args.drop_last()) + seq![','] + spec_quote_powershell(args.last())
    }
}

/// The PowerShell script that relaunches `exe` through the UAC prompt, waits for it and exits
/// with its exit code.
pub open spec fn spec_uac_script(exe: Seq<char>, args: Seq<Seq<char>>) -> Seq<char> {
    "$ErrorActionPreference = 'Stop'; $p = Start-Process -FilePath "@ + spec_quote_powershell(exe)
        + " -ArgumentList @("@ + powershell_list(args)
        + ") -Verb RunAs -Wait -WindowStyle Hidden -PassThru; exit $p.ExitCode"@
}

/// The `powershell -Command` script for the Windows prompt.
pub fn uac_script(exe: &str, args: &Vec<String>) -> (r: String)
    ensures
        r@ == spec_uac_script(exe@, texts(args@)),
{
    let mut out: Vec<char> = Vec::new();
    append_str(&mut out, "$ErrorActionPreference = 'Stop'; $p = Start-Process -FilePath ");
    push_powershell_quoted(&mut out, exe);
    append_str(&mut out, " -ArgumentList @(");
    let ghost start = out@;
    let mut i: usize = 0;
    while i < args.len()
        invariant
            i <= args.len(),
            out@ == start + powershell_list(texts(args@.subrange(0, i as int))),
        decreases args.len() - i,
    {
        if i > 0 {
            out.push(',');
        }
        push_powershell_quoted(&mut out, args[i].as_str());
        proof {
            let t = texts(args@.subrange(0, i + 1));
            assert(t.drop_last() =~= texts(args@.subrange(0, i as int)));
            assert(t.last() == args@[i as int]@);
            if i == 0 {
                assert(t.len() == 1 && t[0] == args@[0]@);
            }
        }
        i = i + 1;
        assert(out@ =~= start + powershell_list(texts(args@.subrange(0, i as int))));
    }
    assert(args@.subrange(0, args.len() as int) =~= args@);
    append_str(&mut out, ") -Verb RunAs -Wait -WindowStyle Hidden -PassThru; exit $p.ExitCode");
    assert(out@ =~= spec_uac_script(exe@, texts(args@)));
    string_of(out.as_slice())
}

/// The line the elevated copy writes: `OK:` for success, `ERR:` and the encoded failure
/// otherwise.
pub open spec fn spec_result_line(failure: Option<Seq<char>>) -> Seq<char> {
    match failure {
        None => seq!['O', 'K', ':'],
        Some(p) => seq!['E', 'R', 'R', ':'] + p,
    }
}

/// The result line for an outcome whose failure, if any, was encoded as `failure`.
pub fn result_line(failure: Option<&str>) -> (r: String)
    ensures
        r@ == spec_result_line(match failure {
            Some(p) => Some(p@),
            None => None,
        }),
{
    let mut out: Vec<char> = Vec::new();
    match failure {
        None => {
            out.push('O');
            out.push('K');
            out.push(':');
        },
        Some(p) => {
            out.push('E');
            out.push('R');
            out.push('R');
            out.push(':');
            append_str(&mut out, p);
        },
    }
    assert(out@ =~= spec_result_line(match failure {
        Some(p) => Some(p@),
        None => None,
    }));
    string_of(out.as_slice())
}

/// What a result file says, read as its trimmed text split at the first `:`: `OK` is success,
/// `ERR` a failure carrying what follows the colon; anything else says nothing.
pub open spec fn spec_parse_result(raw: Seq<char>) -> Option<Result<(), Seq<char>>> {
    let t = spec_trim(raw);
    if exists|i: int| is_first(t, ':', i) {
        let i = choose|i: int| is_first(t, ':', i);
        let prefix = t.subrange(0, i);
        if prefix == seq!['O', 'K'] {
            Some(Ok(()))
        } else if prefix == seq!['E', 'R', 'R'] {
            Some(Err(t.subrange(i + 1, t.len() as int)))
        } else {
            None
        }
    } else {
        None
    }
}

/// Reads a result line written by the elevated copy.
pub fn parse_result_line(raw: &str) -> (r: Option<Result<(), String>>)
    ensures
        match r {
            None => spec_parse_result(raw@) is None,
            Some(Ok(())) => spec_parse_result(raw@) == Some(Ok::<(), Seq<char>>(())),
            Some(Err(p)) => spec_parse_result(raw@) == Some(Err::<(), Seq<char>>(p@)),
        },
{
    let v = chars_of(raw);
    let t = trim_chars(v.as_slice());
    match find_char(t.as_slice(), ':') {
        None => {
            assert(!exists|i: int| is_first(t@, ':', i));
            None
        },
        Some(i) => {
            proof {
                let j = choose|j: int| is_first(t@, ':', j);
                lemma_first_unique(t@, ':', i as int, j);
            }
            let prefix = slice_chars(t.as_slice(), 0, i);
            if prefix.len() == 2 && prefix[0] == 'O' && prefix[1] == 'K' {
                assert(prefix@ =~= seq!['O', 'K']);
                Some(Ok(()))
            } else if prefix.len() == 3 && prefix[0] == 'E' && prefix[1] == 'R' && prefix[2] == 'R' {
                assert(prefix@ =~= seq!['E', 'R', 'R']);
                assert(prefix@ != seq!['O', 'K']);
                let payload = slice_chars(t.as_slice(), i + 1, t.len());
                Some(Err(string_of(payload.as_slice())))
            } else {
                assert(prefix@ != seq!['O', 'K'] && prefix@ != seq!['E', 'R', 'R']) by {
                    if prefix@ == seq!['O', 'K'] {
                        assert(prefix@.len() == 2);
                    }
                    if prefix@ == seq!['E', 'R', 'R'] {
                        assert(prefix@.len() == 3);
                    }
                }
                None
            }
        },
    }
}

/// Writing a result line and reading it back gives the same outcome, for any failure payload
/// that does not end in whitespace (the reader trims the line).
pub proof fn law_result_line_round_trip(payload: Seq<char>)
    requires
        payload.len() == 0 || !is_ws(payload.last()),
    ensures
        spec_parse_result(spec_result_line(None)) == Some(Ok::<(), Seq<char>>(())),
        spec_parse_result(spec_result_line(Some(payload))) == Some(Err::<(), Seq<char>>(payload)),
{
    let ok = spec_result_line(None);
    assert(!is_ws('O') && !is_ws(':'));
    lemma_trim_unchanged(ok);
    assert(is_first(ok, ':', 2));
    let j = choose|j: int| is_first(ok, ':', j);
    lemma_first_unique(ok, ':', 2, j);
    assert(ok.subrange(0, 2) =~= seq!['O', 'K']);

    let err = spec_result_line(Some(payload));
    assert(!is_ws('E'));
    assert(err.last() == (if payload.len() == 0 { ':' } else { payload.last() }));
    lemma_trim_unchanged(err);
    assert(is_first(err, ':', 3));
    let k = choose|k: int| is_first(err, ':', k);
    lemma_first_unique(err, ':', 3, k);
    assert(err.subrange(0, 3) =~= seq!['E', 'R', 'R']);
    assert(err.subrange(0, 3) != seq!['O', 'K']);
    assert(err.subrange(4, err.len() as int) =~= payload);
}

/// The failure a payload stands for: the error it decodes to (`decoded`), or, for a child that
/// wrote plain prose instead, a legacy failure carrying that prose.
pub fn decode_failure(decoded: Option<AppError>, payload: &str) -> (e: AppError)
    ensures
        match decoded {
            Some(d) => e == d,
            None => e.code@ == codes::SERVICE_LEGACY_FAILURE@ && opt_view(e.detail) == detail_of(payload@),
        },
{
    match decoded {
        Some(d) => d,
        None => AppError::with_detail(codes::SERVICE_LEGACY_FAILURE, payload),
    }
}

/// What a finished command printed and how it exited.
#[derive(Debug, Clone)]
pub struct CommandOutput {
    /// Whether it exited with status zero.
    pub success: bool,
    /// Its exit code, when it exited normally.
    pub code: Option<i32>,
    /// Its standard output, decoded.
    pub stdout: String,
    /// Its standard error, decoded.
    pub stderr: String,
    /// How its exit status renders, such as `exit status: 1`.
    pub status: String,
}

/// The trimmed standard output and error, one per line when both are present.
pub open spec fn spec_format_output(stdout: Seq<char>, stderr: Seq<char>) -> Seq<char> {
    let o = spec_trim(stdout);
    let e = spec_trim(stderr);
    if o.len() == 0 {
        e
    } else if e.len() == 0 {
        o
    } else {
        o + seq!['\n'] + e
    }
}

/// What a command printed, as one diagnostic.
pub fn format_output(out: &CommandOutput) -> (r: String)
    ensures
        r@ == spec_format_output(out.stdout@, out.stderr@),
{
    let o = crate::text::trim(out.stdout.as_str());
    let e = crate::text::trim(out.stderr.as_str());
    if o.as_str().is_empty() {
        e
    } else if e.as_str().is_empty() {
        o
    } else {
        let mut m: Vec<char> = chars_of(o.as_str());
        m.push('\n');
        append_str(&mut m, e.as_str());
        string_of(m.as_slice())
    }
}

/// The outcome of a child that reported nothing through a result file: success when it exited
/// with zero, else a generic failure explained by its output or its exit status.
pub open spec fn spec_outcome_from_output(out: CommandOutput) -> Result<(), (Seq<char>, Option<Seq<char>>)> {
    if out.success {
        Ok(())
    } else {
        let d = spec_format_output(out.stdout@, out.stderr@);
        if d.len() == 0 {
            Err((codes::SERVICE_FAILED@, detail_of("child exited with "@ + out.status@)))
        } else {
            Err((codes::SERVICE_FAILED@, Some(d)))
        }
    }
}

/// Reads the outcome of a child from how it exited.
pub fn outcome_from_output(out: &CommandOutput) -> (r: Result<(), AppError>)
    ensures
        err_parts(r) == spec_outcome_from_output(*out),
{
    if out.success {
        return Ok(());
    }
    let d = format_output(out);
    if d.as_str().is_empty() {
        let mut m: Vec<char> = Vec::new();
        append_str(&mut m, "child exited with ");
        append_str(&mut m, out.status.as_str());
        let t = string_of(m.as_slice());
        Err(AppError::with_detail(codes::SERVICE_FAILED, t.as_str()))
    } else {
        Err(AppError::with_detail(codes::SERVICE_FAILED, d.as_str()))
    }
}

/// The outcome when the elevation was not needed and the child ran inline: what its result file
/// said, else what its exit status says.
pub fn inline_outcome(reported: Option<Result<(), AppError>>, out: &CommandOutput) -> (r: Result<(), AppError>)
    ensures
        match reported {
            Some(x) => r == x,
            None => err_parts(r) == spec_outcome_from_output(*out),
        },
{
    match reported {
        Some(x) => x,
        None => outcome_from_output(out),
    }
}

/// What launching the elevated child produced.
#[derive(Debug, Clone)]
pub struct ElevatedSpawn {
    /// Whether the launcher waited for the child to exit.
    pub waited: bool,
    /// Why the launcher produced no result, when it failed outright.
    pub failure: Option<AppError>,
    /// Whether the launcher reported that the prompt was dismissed.
    pub denied: bool,
    /// What the launcher printed, or what it is waiting for.
    pub hint: String,
}

/// A launcher that waited on a prompt which reports a dismissal through a non-zero exit status
/// (UAC through PowerShell, AppleScript).
pub fn prompt_spawn(out: &CommandOutput) -> (s: ElevatedSpawn)
    ensures
        s.waited,
        s.failure is None,
        s.denied == !out.success,
        s.hint@ == spec_format_output(out.stdout@, out.stderr@),
{
    ElevatedSpawn { waited: true, failure: None, denied: !out.success, hint: format_output(out) }
}

/// A `pkexec` run: only its cancellation status is a refusal; any other failure is explained
/// by its output or, failing that, its exit status.
pub fn pkexec_spawn(out: &CommandOutput) -> (s: ElevatedSpawn)
    ensures
        s.waited,
        s.denied == (out.code == Some(PKEXEC_CANCELLED)),
        s.hint@ == spec_format_output(out.stdout@, out.stderr@),
        (s.denied || out.success) ==> s.failure is None,
        (!s.denied && !out.success) ==> (s.failure matches Some(f) && f.code@ == codes::SERVICE_ELEVATION_FAILED@
            && opt_view(f.detail) == (if s.hint@.len() == 0 {
                detail_of("pkexec exited with "@ + out.status@)
            } else {
                Some(s.hint@)
            })),
{
    let denied = match out.code {
        Some(c) => c == PKEXEC_CANCELLED,
        None => false,
    };
    let hint = format_output(out);
    let failure = if !denied && !out.success {
        if hint.as_str().is_empty() {
            let mut m: Vec<char> = Vec::new();
            append_str(&mut m, "pkexec exited with ");
            append_str(&mut m, out.status.as_str());
            let t = string_of(m.as_slice());
            Some(AppError::with_detail(codes::SERVICE_ELEVATION_FAILED, t.as_str()))
        } else {
            Some(AppError::with_detail(codes::SERVICE_ELEVATION_FAILED, hint.as_str()))
        }
    } else {
        None
    };
    ElevatedSpawn { waited: true, failure, denied, hint }
}

/// A terminal window that now owns the `sudo` prompt, or the error that kept it from opening:
/// nobody waits for it, and whether it was dismissed is unknown.
pub fn terminal_spawn(launch_error: Option<&str>) -> (s: ElevatedSpawn)
    ensures
        !s.waited,
        s.failure is None,
        !s.denied,
        s.hint@ == (match launch_error {
            None => "Waiting for sudo authentication in the terminal window."@,
            Some(e) => "Failed to launch a terminal emulator: "@ + e@,
        }),
{
    let hint = match launch_error {
        None => String::from_str("Waiting for sudo authentication in the terminal window."),
        Some(e) => {
            let mut m: Vec<char> = Vec::new();
            append_str(&mut m, "Failed to launch a terminal emulator: ");
            append_str(&mut m, e);
            string_of(m.as_slice())
        },
    };
    ElevatedSpawn { waited: false, failure: None, denied: false, hint }
}

/// A launcher that could not be started at all still waited, in the sense that nothing will
/// arrive later: its failure is carried forward.
pub fn spawn_or_failure(launched: Result<ElevatedSpawn, AppError>) -> (s: ElevatedSpawn)
    ensures
        match launched {
            Ok(x) => s == x,
            Err(f) => s.waited && s.failure == Some(f) && !s.denied && s.hint@.len() == 0,
        },
{
    match launched {
        Ok(x) => x,
        Err(f) => ElevatedSpawn { waited: true, failure: Some(f), denied: false, hint: String::new() },
    }
}

/// The failure when Linux has neither polkit nor a terminal emulator.
pub fn no_elevation_channel(exe: &str) -> (e: AppError)
    ensures
        e.code@ == codes::SERVICE_ELEVATION_UNAVAILABLE@,
        opt_view(e.detail) == detail_of(
            "neither polkit (pkexec) nor a terminal emulator is available; run `sudo "@ + exe@
                + " --install` manually"@,
        ),
{
    let mut m: Vec<char> = Vec::new();
    append_str(&mut m, "neither polkit (pkexec) nor a terminal emulator is available; run `sudo ");
    append_str(&mut m, exe);
    append_str(&mut m, " --install` manually");
    let t = string_of(m.as_slice());
    AppError::with_detail(codes::SERVICE_ELEVATION_UNAVAILABLE, t.as_str())
}

/// The failure when neither PowerShell could be started; `last_error` is what the last attempt
/// reported.
pub fn powershell_unavailable(shell: &str, last_error: &str) -> (e: AppError)
    ensures
        e.code@ == codes::SERVICE_ELEVATION_FAILED@,
        opt_view(e.detail) == detail_of("Failed to start "@ + shell@ + ": "@ + last_error@),
{
    let mut m: Vec<char> = Vec::new();
    append_str(&mut m, "Failed to start ");
    append_str(&mut m, shell);
    append_str(&mut m, ": ");
    append_str(&mut m, last_error);
    let t = string_of(m.as_slice());
    AppError::with_detail(codes::SERVICE_ELEVATION_FAILED, t.as_str())
}

/// What the caller of an elevated operation reports: the outcome the child wrote back, else,
/// when nothing came back, why — the launcher's own failure, a dismissed prompt, a prompt still
/// waiting somewhere (the hint says where), or a plain refusal.
pub open spec fn spec_verdict(reported: Option<Result<(), AppError>>, spawn: Option<ElevatedSpawn>) -> Result<(), (Seq<char>, Option<Seq<char>>)> {
    match reported {
        Some(r) => err_parts(r),
        None => match spawn {
            None => Err((codes::SERVICE_FAILED@, None)),
            Some(s) => match s.failure {
                Some(f) => Err(f.spec_parts()),
                None => if s.denied {
                    Err((codes::SERVICE_ELEVATION_DENIED@, detail_of(s.hint@)))
                } else if s.hint@.len() == 0 {
                    Err((codes::SERVICE_ELEVATION_DENIED@, None))
                } else {
                    Err((codes::SERVICE_ELEVATION_INCOMPLETE@, Some(s.hint@)))
                },
            },
        },
    }
}

/// Decides the outcome of an elevated run from what was reported back and how the child was
/// launched (`None` when it ran inline, without a prompt).
pub fn elevation_verdict(reported: Option<Result<(), AppError>>, spawn: Option<ElevatedSpawn>) -> (r: Result<(), AppError>)
    ensures
        err_parts(r) == spec_verdict(reported, spawn),
{
    if let Some(outcome) = reported {
        return outcome;
    }
    let s = match spawn {
        None => return Err(AppError::new(codes::SERVICE_FAILED)),
        Some(s) => s,
    };
    if let Some(f) = s.failure {
        return Err(f);
    }
    if s.denied {
        return Err(AppError::with_detail(codes::SERVICE_ELEVATION_DENIED, s.hint.as_str()));
    }
    if s.hint.as_str().is_empty() {
        return Err(AppError::new(codes::SERVICE_ELEVATION_DENIED));
    }
    Err(AppError::with_detail(codes::SERVICE_ELEVATION_INCOMPLETE, s.hint.as_str()))
}

/// The flag the elevated copy reads back is the one the caller appended: taking it from the
/// arguments built for the child yields the result path and leaves the requested arguments
/// followed by the marker, whenever the requested arguments do not carry the flag themselves.
pub proof fn law_result_file_reaches_the_child(requested: Seq<Seq<char>>, path: Seq<char>, args: Seq<String>)
    requires
        texts(args) == requested + seq![ELEVATED_ARG@, RESULT_FILE_ARG@, path],
        forall|k: int| 0 <= k < requested.len() ==> requested[k] != RESULT_FILE_ARG@,
    ensures
        is_first_arg(args, RESULT_FILE_ARG@, requested.len() + 1int),
        args[requested.len() + 2int]@ == path,
        texts(args.remove(requested.len() + 1int).remove(requested.len() + 1int)) == requested + seq![ELEVATED_ARG@],
{
    let n = requested.len() as int;
    assert(texts(args).len() == args.len());
    assert(args.len() == n + 3);
    assert(args[n + 1]@ == texts(args)[n + 1]);
    assert(args[n + 2]@ == texts(args)[n + 2]);
    assert(ELEVATED_ARG@ != RESULT_FILE_ARG@) by {
        reveal_strlit("--elevated");
        reveal_strlit("--result-file");
        assert(ELEVATED_ARG@.len() != RESULT_FILE_ARG@.len());
    }
    assert forall|k: int| 0 <= k < n + 1 implies args[k]@ != RESULT_FILE_ARG@ by {
        assert(args[k]@ == texts(args)[k]);
        if k < n {
            assert(texts(args)[k] == requested[k]);
        }
    }
    assert(texts(args.remove(n + 1).remove(n + 1)) =~= requested + seq![ELEVATED_ARG@]) by {
        assert forall|k: int| 0 <= k < n + 1 implies texts(args.remove(n + 1).remove(n + 1))[k] == (requested + seq![ELEVATED_ARG@])[k] by {
            assert(args.remove(n + 1).remove(n + 1)[k] == args[k]);
            assert(texts(args)[k] == args[k]@);
        }
    }
}


/// What the body of a POSIX single-quoted word stands for, read from its end: a `'\''` is one
/// quote (close, escaped quote, reopen), any other character stands for itself, and a quote
/// that is not part of that sequence would end the word (`None`).
pub open spec fn shell_body_text(t: Seq<char>) -> Option<Seq<char>>
    decreases t.len(),
{
    if t.len() == 0 {
        Some(Seq::empty())
    } else if t.last() != '\'' {
        match shell_body_text(t.drop_last()) {
            Some(v) => Some(v.push(t.last())),
            None => None,
        }
    } else if t.len() >= 4 && t.subrange(t.len() - 4, t.len() as int) == seq!['\'', '\\', '\'', '\''] {
        match shell_body_text(t.subrange(0, t.len() - 4)) {
            Some(v) => Some(v.push('\'')),
            None => None,
        }
    } else {
        None
    }
}

/// What the body of a PowerShell single-quoted string stands for, read from its end: `''` is
/// one quote, any other character stands for itself, and a lone quote would end the string.
pub open spec fn powershell_body_text(t: Seq<char>) -> Option<Seq<char>>
    decreases t.len(),
{
    if t.len() == 0 {
        Some(Seq::empty())
    } else if t.last() != '\'' {
        match powershell_body_text(t.drop_last()) {
            Some(v) => Some(v.push(t.last())),
            None => None,
        }
    } else if t.len() >= 2 && t[t.len() - 2] == '\'' {
        match powershell_body_text(t.subrange(0, t.len() - 2)) {
            Some(v) => Some(v.push('\'')),
            None => None,
        }
    } else {
        None
    }
}

/// Quoting for a POSIX shell gives one single-quoted word that the shell reads back as exactly
/// the value, whatever quotes it holds.
pub proof fn law_shell_quoting_reads_back(v: Seq<char>)
    ensures
        ({
            let q = spec_quote_shell(v);
            &&& q.len() >= 2 && q[0] == '\'' && q.last() == '\''
            &&& shell_body_text(q.subrange(1, q.len() - 1)) == Some(v)
        }),
    decreases v.len(),
{
    let f = |c: char| shell_escape(c);
    let q = spec_quote_shell(v);
    assert(q.subrange(1, q.len() - 1) =~= expand(v, f));
    if v.len() > 0 {
        law_shell_quoting_reads_back(v.drop_last());
        let q0 = spec_quote_shell(v.drop_last());
        assert(q0.subrange(1, q0.len() - 1) =~= expand(v.drop_last(), f));
        let e = expand(v, f);
        let e0 = expand(v.drop_last(), f);
        assert(e == e0 + shell_escape(v.last()));
        if v.last() == '\'' {
            assert(e.subrange(e.len() - 4, e.len() as int) =~= seq!['\'', '\\', '\'', '\'']);
            assert(e.subrange(0, e.len() - 4) =~= e0);
        } else {
            assert(e.drop_last() =~= e0);
        }
        assert(v.drop_last().push(v.last()) =~= v);
    }
}

/// Quoting for PowerShell gives one single-quoted string that PowerShell reads back as exactly
/// the value, whatever quotes it holds.
pub proof fn law_powershell_quoting_reads_back(v: Seq<char>)
    ensures
        ({
            let q = spec_quote_powershell(v);
            &&& q.len() >= 2 && q[0] == '\'' && q.last() == '\''
            &&& powershell_body_text(q.subrange(1, q.len() - 1)) == Some(v)
        }),
    decreases v.len(),
{
    let f = |c: char| powershell_escape(c);
    let q = spec_quote_powershell(v);
    assert(q.subrange(1, q.len() - 1) =~= expand(v, f));
    if v.len() > 0 {
        law_powershell_quoting_reads_back(v.drop_last());
        let q0 = spec_quote_powershell(v.drop_last());
        assert(q0.subrange(1, q0.len() - 1) =~= expand(v.drop_last(), f));
        let e = expand(v, f);
        let e0 = expand(v.drop_last(), f);
        assert(e == e0 + powershell_escape(v.last()));
        if v.last() == '\'' {
            assert(e.subrange(0, e.len() - 2) =~= e0);
        } else {
            assert(e.drop_last() =~= e0);
        }
        assert(v.drop_last().push(v.last()) =~= v);
    }
}

} // verus!
