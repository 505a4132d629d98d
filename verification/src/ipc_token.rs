//! The shared secret an IPC client must present before the elevated service obeys it.
//!
//! The desktop process owns the token: it writes it into the user's own runtime directory,
//! where ordinary file permissions already say the right thing, and the service only ever reads
//! it. A missing token means no desktop session has asked for the service yet, so nothing is
//! obeyed.
use vstd::prelude::*;
use crate::codes;
use crate::error::{detail_of, opt_view, AppError};
use crate::host::{join, parent, path_parent, push_component, Platform};
use crate::text::{append_str, chars_of, spec_trim, string_of, trim};
use crate::runner::{push_quoted, quoted};

verus! {

/// Bytes of entropy in a token.
pub const TOKEN_BYTES: usize = 32;

/// Overrides where the token lives; both processes have to see the same value.
pub const TOKEN_PATH_ENV: &'static str = "NEXAPIPE_IPC_TOKEN_FILE";

/// Directory holding the token, relative to its base directory.
pub const TOKEN_DIR: &'static str = "nexapipe";

/// File name of the token.
pub const TOKEN_FILE: &'static str = "ipc.token";

/// Whether `presented` is the expected token. Compares every position once the lengths
/// agree, without stopping at the first difference.
pub fn token_matches(expected: &str, presented: &str) -> (b: bool)
    ensures
        b == (expected@ == presented@),
{
    let e = chars_of(expected);
    let p = chars_of(presented);
    if e.len() != p.len() {
        return false;
    }
    let mut diff: u32 = 0;
    let mut i: usize = 0;
    while i < e.len()
        invariant
            i <= e.len() == p.len(),
            (diff == 0) == (forall|k: int| 0 <= k < i ==> e@[k] == p@[k]),
        decreases e.len() - i,
    {
        let ne: u32 = if e[i] == p[i] {
            0
        } else {
            1
        };
        let old_diff = diff;
        diff = diff | ne;
        assert((old_diff | ne) == 0 <==> (old_diff == 0 && ne == 0)) by (bit_vector);
        i = i + 1;
    }
    assert((diff == 0) ==> e@ =~= p@);
    diff == 0
}

/// Whether `presented` equals one of `tokens`.
pub open spec fn spec_matches_any(tokens: Seq<String>, presented: Seq<char>) -> bool {
    exists|i: int| 0 <= i < tokens.len() && #[trigger] tokens[i]@ == presented
}

/// Whether `presented` is one of the published tokens.
pub fn token_matches_any(tokens: &[String], presented: &str) -> (b: bool)
    ensures
        b == spec_matches_any(tokens@, presented@),
{
    let mut i: usize = 0;
    while i < tokens.len()
        invariant
            i <= tokens.len(),
            forall|k: int| 0 <= k < i ==> tokens@[k]@ != presented@,
        decreases tokens.len() - i,
    {
        if token_matches(tokens[i].as_str(), presented) {
            return true;
        }
        i = i + 1;
    }
    false
}

/// What reading a token file gave.
#[derive(Debug, Clone)]
pub enum FileRead {
    /// The file's contents.
    Contents(String),
    /// There is no such file.
    NotFound,
    /// Any other failure, rendered.
    Failed(String),
}

/// The text `{:o}` renders `n` as.
pub open spec fn octal(n: nat) -> Seq<char>
    decreases n,
{
    if n < 8 {
        seq![crate::num::digit_char(n)]
    } else {
        octal(n / 8).push(crate::num::digit_char(n % 8))
    }
}

fn push_octal(out: &mut Vec<char>, n: u32)
    ensures
        final(out)@ == old(out)@ + octal(n as nat),
    decreases n,
{
    if n >= 8 {
        push_octal(out, n / 8);
    }
    let d = n % 8;
    let c = if d == 0 {
        '0'
    } else if d == 1 {
        '1'
    } else if d == 2 {
        '2'
    } else if d == 3 {
        '3'
    } else if d == 4 {
        '4'
    } else if d == 5 {
        '5'
    } else if d == 6 {
        '6'
    } else {
        '7'
    };
    out.push(c);
    assert(out@ =~= old(out)@ + octal(n as nat));
}

/// The refusal of a token file anybody could read.
pub open spec fn world_readable_message(path: Seq<char>, mode: u32) -> Seq<char> {
    quoted(path) + " is readable by other accounts (mode "@ + octal(mode as nat)
        + "); delete it so it is regenerated private"@
}

/// A token other accounts can read is refused rather than trusted: `mode` is the file's
/// permission bits where the platform has them.
pub fn reject_world_readable(path: &str, mode: Option<u32>) -> (r: Result<(), AppError>)
    ensures
        match mode {
            Some(m) if m & 0o077u32 != 0 => (r matches Err(e) && e.spec_parts() == (
                codes::SERVICE_IPC_TOKEN@,
                detail_of(world_readable_message(path@, m)),
            )),
            _ => r is Ok,
        },
{
    match mode {
        Some(m) => {
            if m & 0o077u32 != 0 {
                let mut msg: Vec<char> = Vec::new();
                push_quoted(&mut msg, path);
                append_str(&mut msg, " is readable by other accounts (mode ");
                push_octal(&mut msg, m);
                append_str(&mut msg, "); delete it so it is regenerated private");
                assert(msg@ =~= world_readable_message(path@, m));
                let d = string_of(msg.as_slice());
                Err(AppError::with_detail(codes::SERVICE_IPC_TOKEN, d.as_str()))
            } else {
                Ok(())
            }
        },
        None => Ok(()),
    }
}

/// `"<what> <path:?>: <e>"`, the shape every token-file failure is reported in.
pub open spec fn path_failure(what: Seq<char>, path: Seq<char>, e: Seq<char>) -> Seq<char> {
    what + quoted(path) + ": "@ + e
}

fn path_failure_text(what: &str, path: &str, e: &str) -> (s: String)
    ensures
        s@ == path_failure(what@, path@, e@),
{
    let mut m = chars_of(what);
    push_quoted(&mut m, path);
    append_str(&mut m, ": ");
    append_str(&mut m, e);
    assert(m@ =~= path_failure(what@, path@, e@));
    string_of(m.as_slice())
}

/// What the service makes of one token file: an empty file is no token; a token other
/// accounts can read is refused; a missing file is no token; any other read failure is an
/// error.
pub open spec fn spec_read_token_at(path: Seq<char>, read: FileRead, mode: Option<u32>) -> Result<Option<Seq<char>>, (Seq<char>, Option<Seq<char>>)> {
    match read {
        FileRead::Contents(c) => if spec_trim(c@).len() == 0 {
            Ok(None)
        } else {
            match mode {
                Some(m) if m & 0o077u32 != 0 => Err((codes::SERVICE_IPC_TOKEN@, detail_of(world_readable_message(path, m)))),
                _ => Ok(Some(spec_trim(c@))),
            }
        },
        FileRead::NotFound => Ok(None),
        FileRead::Failed(e) => Err((codes::SERVICE_IPC_TOKEN@, detail_of(path_failure("cannot read "@, path, e@)))),
    }
}

/// A token lookup result as plain values.
pub open spec fn token_result_parts(r: Result<Option<String>, AppError>) -> Result<Option<Seq<char>>, (Seq<char>, Option<Seq<char>>)> {
    match r {
        Ok(Some(t)) => Ok(Some(t@)),
        Ok(None) => Ok(None),
        Err(e) => Err(e.spec_parts()),
    }
}

/// The token stored at `path`, given what reading the file and its permission bits gave.
pub fn read_token_at(path: &str, read: FileRead, mode: Option<u32>) -> (r: Result<Option<String>, AppError>)
    ensures
        token_result_parts(r) == spec_read_token_at(path@, read, mode),
{
    match read {
        FileRead::Contents(c) => {
            let token = trim(c.as_str());
            if token.as_str().is_empty() {
                return Ok(None);
            }
            match reject_world_readable(path, mode) {
                Ok(()) => Ok(Some(token)),
                Err(e) => Err(e),
            }
        },
        FileRead::NotFound => Ok(None),
        FileRead::Failed(e) => {
            let d = path_failure_text("cannot read ", path, e.as_str());
            Err(AppError::cause(codes::SERVICE_IPC_TOKEN, d.as_str()))
        },
    }
}

/// The tokens among lookup results, in order: every published token counts, and a file that
/// could not be read is skipped rather than fatal.
pub open spec fn spec_tokens(results: Seq<Result<Option<String>, AppError>>) -> Seq<Seq<char>>
    decreases results.len(),
{
    if results.len() == 0 {
        seq![]
    } else {
        let rest = spec_tokens(results.drop_last());
        match results.last() {
            Ok(Some(t)) => rest.push(t@),
            _ => rest,
        }
    }
}

/// Every token that has been published, in the order the candidates were looked up: one
/// unreadable profile must not make another session's valid token unusable.
pub fn read_tokens(results: Vec<Result<Option<String>, AppError>>) -> (r: Vec<String>)
    ensures
        r@.map_values(|t: String| t@) == spec_tokens(results@),
{
    let ghost orig = results@;
    let mut rest = results;
    let mut out: Vec<String> = Vec::new();
    let total = rest.len();
    let mut k: usize = 0;
    while rest.len() > 0
        invariant
            orig.len() == total,
            k + rest@.len() == orig.len(),
            rest@ == orig.subrange(k as int, orig.len() as int),
            out@.map_values(|t: String| t@) == spec_tokens(orig.subrange(0, k as int)),
        decreases rest@.len(),
    {
        let item = rest.remove(0);
        proof {
            let pre = orig.subrange(0, k + 1);
            assert(pre.drop_last() =~= orig.subrange(0, k as int));
            assert(pre.last() == item);
        }
        match item {
            Ok(Some(t)) => {
                out.push(t);
            },
            _ => {},
        }
        assert(out@.map_values(|t: String| t@) =~= spec_tokens(orig.subrange(0, k + 1)));
        k = k + 1;
    }
    assert(orig.subrange(0, k as int) =~= orig);
    out
}

/// The first published token, if any. `None` is not "authentication is off": it means no
/// desktop session has published a token, so every privileged message is refused.
pub fn read_token(tokens: Vec<String>) -> (r: Option<String>)
    ensures
        r is None <==> tokens@.len() == 0,
        r matches Some(t) ==> t == tokens@[0],
{
    let mut tokens = tokens;
    if tokens.len() == 0 {
        None
    } else {
        Some(tokens.remove(0))
    }
}

/// Draws one uniformly random byte (`fastrand::u8(..)`).
#[verifier::external_body]
fn random_byte() -> (b: u8) {
    fastrand::u8(..)
}

/// Whether `c` is a lowercase hexadecimal digit.
pub open spec fn is_lower_hex(c: char) -> bool {
    ('0' <= c && c <= '9') || ('a' <= c && c <= 'f')
}

/// The lowercase hexadecimal digit for `n` (below 16).
pub open spec fn hex_char(n: nat) -> char {
    if n < 10 {
        ('0' as u32 + n) as char
    } else {
        ('a' as u32 + (n - 10)) as char
    }
}

/// `bytes` in lowercase hexadecimal, two digits per byte, high nibble first (as `{:02x}` writes
/// each byte).
pub open spec fn spec_hex(bytes: Seq<u8>) -> Seq<char>
    decreases bytes.len(),
{
    if bytes.len() == 0 {
        seq![]
    } else {
        let b = bytes.last();
        spec_hex(bytes.drop_last()) + seq![hex_char((b / 16) as nat), hex_char((b % 16) as nat)]
    }
}

/// Hex text is two lowercase hex digits per byte.
pub proof fn lemma_spec_hex(bytes: Seq<u8>)
    ensures
        spec_hex(bytes).len() == 2 * bytes.len(),
        forall|i: int| 0 <= i < spec_hex(bytes).len() ==> is_lower_hex(#[trigger] spec_hex(bytes)[i]),
    decreases bytes.len(),
{
    if bytes.len() > 0 {
        lemma_spec_hex(bytes.drop_last());
        let b = bytes.last();
        let prev = spec_hex(bytes.drop_last());
        let d = seq![hex_char((b / 16) as nat), hex_char((b % 16) as nat)];
        assert forall|i: int| 0 <= i < spec_hex(bytes).len() implies is_lower_hex(#[trigger] spec_hex(bytes)[i]) by {
            if i < prev.len() {
                assert(spec_hex(bytes)[i] == prev[i]);
            } else {
                assert(spec_hex(bytes)[i] == d[i - prev.len()]);
            }
        }
    }
}

fn hex_digit(n: u8) -> (c: char)
    requires
        n < 16,
    ensures
        c == hex_char(n as nat),
{
    if n < 10 {
        ((48u8 + n) as char)
    } else {
        ((97u8 + (n - 10)) as char)
    }
}

/// `bytes` as lowercase hexadecimal text, two digits per byte, high nibble first.
pub fn hex_token(bytes: &[u8]) -> (t: String)
    ensures
        t@ == spec_hex(bytes@),
{
    let mut v: Vec<char> = Vec::new();
    let mut i: usize = 0;
    while i < bytes.len()
        invariant
            i <= bytes.len(),
            v@ == spec_hex(bytes@.subrange(0, i as int)),
        decreases bytes.len() - i,
    {
        let b = bytes[i];
        proof {
            assert(bytes@.subrange(0, i + 1).drop_last() =~= bytes@.subrange(0, i as int));
        }
        v.push(hex_digit(b / 16));
        v.push(hex_digit(b % 16));
        i = i + 1;
    }
    assert(bytes@.subrange(0, bytes.len() as int) =~= bytes@);
    string_of(v.as_slice())
}

/// A fresh token: 32 random bytes (`fastrand`) as 64 lowercase hexadecimal characters. Which
/// bytes were drawn is up to chance; the token is their hex text.
pub fn generate_token() -> (t: String)
    ensures
        exists|bs: Seq<u8>| bs.len() == TOKEN_BYTES && t@ == spec_hex(bs),
        t@.len() == 2 * TOKEN_BYTES,
        forall|i: int| 0 <= i < t@.len() ==> is_lower_hex(#[trigger] t@[i]),
{
    let mut bytes: Vec<u8> = Vec::new();
    let mut i: usize = 0;
    while i < TOKEN_BYTES
        invariant
            i <= TOKEN_BYTES,
            bytes@.len() == i,
        decreases TOKEN_BYTES - i,
    {
        bytes.push(random_byte());
        i = i + 1;
    }
    let t = hex_token(bytes.as_slice());
    proof {
        lemma_spec_hex(bytes@);
    }
    t
}

/// The next step of making sure this session has a token.
#[derive(Debug)]
pub enum EnsureStep {
    /// Create the token's directory (and its parents).
    CreateDir(String),
    /// Read the token file and its permission bits.
    ReadFile,
    /// Write this fresh token into a new file only the creating account can read.
    WriteFile(String),
    /// Nothing more to do.
    Finished(Result<String, AppError>),
}

/// What the previous step of making sure this session has a token observed.
#[derive(Debug)]
pub enum EnsureEvent {
    /// Starting over a token path with this parent directory, if it has one.
    Begin(Option<String>),
    /// The token's directory was created, or why it could not be.
    DirCreated { parent: String, result: Result<(), String> },
    /// The token file was read, with its permission bits where the platform has them.
    Read(FileRead, Option<u32>),
    /// The fresh token was written, or why it could not be.
    Wrote { token: String, result: Result<(), String> },
}

/// The steps of making sure the session at `path` has a token, as plain values.
pub open spec fn spec_ensure_step(path: Seq<char>, ev: EnsureEvent, s: EnsureStep) -> bool {
    match ev {
        EnsureEvent::Begin(None) => s matches EnsureStep::Finished(Err(e)) && e.spec_parts() == (
            codes::SERVICE_IPC_TOKEN@,
            detail_of("token path has no parent directory"@),
        ),
        EnsureEvent::Begin(Some(parent)) => s matches EnsureStep::CreateDir(d) && d@ == parent@,
        EnsureEvent::DirCreated { parent, result } => match result {
            Ok(()) => s is ReadFile,
            Err(e) => s matches EnsureStep::Finished(Err(err)) && err.spec_parts() == (
                codes::SERVICE_IPC_TOKEN@,
                detail_of(path_failure("cannot create "@, parent@, e@)),
            ),
        },
        EnsureEvent::Read(FileRead::Contents(c), mode) => if spec_trim(c@).len() == 0 {
            s matches EnsureStep::Finished(Err(err)) && err.spec_parts() == (
                codes::SERVICE_IPC_TOKEN@,
                detail_of(quoted(path) + " is empty"@),
            )
        } else {
            match mode {
                Some(m) if m & 0o077u32 != 0 => s matches EnsureStep::Finished(Err(err))
                    && err.spec_parts() == (
                    codes::SERVICE_IPC_TOKEN@,
                    detail_of(world_readable_message(path, m)),
                ),
                _ => s matches EnsureStep::Finished(Ok(t)) && t@ == spec_trim(c@),
            }
        },
        EnsureEvent::Read(FileRead::NotFound, _) => s matches EnsureStep::WriteFile(t)
            && (exists|bs: Seq<u8>| bs.len() == TOKEN_BYTES && t@ == spec_hex(bs)) && t@.len()
            == 2 * TOKEN_BYTES && forall|i: int| 0 <= i < t@.len() ==> is_lower_hex(#[trigger] t@[i]),
        EnsureEvent::Read(FileRead::Failed(e), _) => s matches EnsureStep::Finished(Err(err))
            && err.spec_parts() == (
            codes::SERVICE_IPC_TOKEN@,
            detail_of(path_failure("cannot read "@, path, e@)),
        ),
        EnsureEvent::Wrote { token, result } => match result {
            Ok(()) => s matches EnsureStep::Finished(Ok(t)) && t@ == token@,
            Err(e) => s matches EnsureStep::Finished(Err(err)) && err.spec_parts() == (
                codes::SERVICE_IPC_TOKEN@,
                detail_of(path_failure("cannot write "@, path, e@)),
            ),
        },
    }
}

/// Makes sure the desktop session whose token lives at `path` has a token: an existing one
/// is reused so two windows agree, a missing one is generated and written privately, and an
/// empty or world-readable one is refused. Each call takes what the previous step observed
/// and says what to do next.
pub fn ensure_token(path: &str, ev: EnsureEvent) -> (s: EnsureStep)
    ensures
        spec_ensure_step(path@, ev, s),
{
    match ev {
        EnsureEvent::Begin(None) => EnsureStep::Finished(
            Err(AppError::with_detail(codes::SERVICE_IPC_TOKEN, "token path has no parent directory")),
        ),
        EnsureEvent::Begin(Some(parent)) => EnsureStep::CreateDir(parent),
        EnsureEvent::DirCreated { parent, result } => match result {
            Ok(()) => EnsureStep::ReadFile,
            Err(e) => {
                let d = path_failure_text("cannot create ", parent.as_str(), e.as_str());
                EnsureStep::Finished(Err(AppError::cause(codes::SERVICE_IPC_TOKEN, d.as_str())))
            },
        },
        EnsureEvent::Read(FileRead::Contents(c), mode) => {
            let token = trim(c.as_str());
            if token.as_str().is_empty() {
                let mut m: Vec<char> = Vec::new();
                push_quoted(&mut m, path);
                append_str(&mut m, " is empty");
                let d = string_of(m.as_slice());
                return EnsureStep::Finished(Err(AppError::with_detail(codes::SERVICE_IPC_TOKEN, d.as_str())));
            }
            match reject_world_readable(path, mode) {
                Ok(()) => EnsureStep::Finished(Ok(token)),
                Err(e) => EnsureStep::Finished(Err(e)),
            }
        },
        EnsureEvent::Read(FileRead::NotFound, _) => EnsureStep::WriteFile(generate_token()),
        EnsureEvent::Read(FileRead::Failed(e), _) => {
            let d = path_failure_text("cannot read ", path, e.as_str());
            EnsureStep::Finished(Err(AppError::cause(codes::SERVICE_IPC_TOKEN, d.as_str())))
        },
        EnsureEvent::Wrote { token, result } => match result {
            Ok(()) => EnsureStep::Finished(Ok(token)),
            Err(e) => {
                let d = path_failure_text("cannot write ", path, e.as_str());
                EnsureStep::Finished(Err(AppError::cause(codes::SERVICE_IPC_TOKEN, d.as_str())))
            },
        },
    }
}

proof fn lemma_hex_is_trimmed(t: Seq<char>)
    requires
        forall|i: int| 0 <= i < t.len() ==> is_lower_hex(#[trigger] t[i]),
    ensures
        spec_trim(t) == t,
{
    if t.len() > 0 {
        assert(is_lower_hex(t[0]));
        assert(is_lower_hex(t[t.len() - 1]));
        assert(t.subrange(0, t.len() as int) =~= t);
    } else {
        assert(t.subrange(0, 0) =~= t);
    }
}

/// A generated token written to its file is read back identical, by the desktop (which then
/// reuses it rather than rotating it) and by the service alike, as long as the file is
/// private: a missing file gets a fresh 64-character lowercase hex token, writing it finishes
/// with that token, and a later pass that reads the file finishes with the same token.
pub proof fn law_generated_token_reads_back(path: Seq<char>, t: String, mode: Option<u32>)
    requires
        t@.len() == 2 * TOKEN_BYTES,
        forall|i: int| 0 <= i < t@.len() ==> is_lower_hex(#[trigger] t@[i]),
        match mode {
            Some(m) => m & 0o077u32 == 0,
            None => true,
        },
    ensures
        spec_read_token_at(path, FileRead::Contents(t), mode) == Ok::<_, (Seq<char>, Option<Seq<char>>)>(Some(t@)),
        forall|s: EnsureStep| spec_ensure_step(path, EnsureEvent::Read(FileRead::Contents(t), mode), s) ==> (s matches EnsureStep::Finished(Ok(r)) && r@ == t@),
        forall|s: EnsureStep, m: Option<u32>| #[trigger] spec_ensure_step(path, EnsureEvent::Read(FileRead::NotFound, m), s) ==> (s matches EnsureStep::WriteFile(w)
            && (exists|bs: Seq<u8>| bs.len() == TOKEN_BYTES && w@ == spec_hex(bs))
            && w@.len() == 2 * TOKEN_BYTES && forall|i: int| 0 <= i < w@.len() ==> is_lower_hex(#[trigger] w@[i])),
        forall|s: EnsureStep| spec_ensure_step(path, EnsureEvent::Wrote { token: t, result: Ok(()) }, s) ==> (s matches EnsureStep::Finished(Ok(r)) && r@ == t@),
{
    lemma_hex_is_trimmed(t@);
}

/// Where the token lives by default: `$LOCALAPPDATA` (or the temp directory) on Windows;
/// elsewhere `$XDG_RUNTIME_DIR` when set and not blank, else `$HOME/.cache`, else the temp
/// directory; then `nexapipe/ipc.token` under it. A non-blank override wins outright.
pub open spec fn spec_token_path(p: Platform, env_override: Option<String>, local_app_data: Option<String>, xdg_runtime_dir: Option<String>, home: Option<String>, temp_dir: Seq<char>) -> Seq<char> {
    match env_override {
        Some(o) if spec_trim(o@).len() > 0 => o@,
        _ => {
            let base = if p == Platform::Windows {
                match local_app_data {
                    Some(d) => d@,
                    None => temp_dir,
                }
            } else {
                match xdg_runtime_dir {
                    Some(d) if spec_trim(d@).len() > 0 => d@,
                    _ => match home {
                        Some(h) => join(p, h@, ".cache"@),
                        None => temp_dir,
                    },
                }
            };
            join(p, join(p, base, TOKEN_DIR@), TOKEN_FILE@)
        },
    }
}

fn is_blank(s: &String) -> (b: bool)
    ensures
        b == (spec_trim(s@).len() == 0),
{
    trim(s.as_str()).as_str().is_empty()
}

/// Where the token lives, from the environment as the process sees it.
pub fn token_path(p: Platform, env_override: Option<String>, local_app_data: Option<String>, xdg_runtime_dir: Option<String>, home: Option<String>, temp_dir: &str) -> (r: String)
    ensures
        r@ == spec_token_path(p, env_override, local_app_data, xdg_runtime_dir, home, temp_dir@),
{
    let ghost (o0, l0, x0, h0) = (env_override, local_app_data, xdg_runtime_dir, home);
    match env_override {
        Some(o) => {
            if !is_blank(&o) {
                return o;
            }
        },
        None => {},
    }
    let mut base: Vec<char> = if p == Platform::Windows {
        match local_app_data {
            Some(d) => chars_of(d.as_str()),
            None => chars_of(temp_dir),
        }
    } else {
        let xdg_ok = match &xdg_runtime_dir {
            Some(d) => !is_blank(d),
            None => false,
        };
        if xdg_ok {
            match xdg_runtime_dir {
                Some(d) => chars_of(d.as_str()),
                None => Vec::new(),
            }
        } else {
            match home {
                Some(h) => {
                    let mut b = chars_of(h.as_str());
                    push_component(p, &mut b, ".cache");
                    b
                },
                None => chars_of(temp_dir),
            }
        }
    };
    push_component(p, &mut base, TOKEN_DIR);
    push_component(p, &mut base, TOKEN_FILE);
    string_of(base.as_slice())
}

/// The directories that hold one home directory per user, on a Unix `p`: a macOS home lives
/// under `/Users`; elsewhere the runtime directories under `/run/user` and the homes under
/// `/home` are scanned.
pub fn unix_home_roots(p: Platform) -> (r: Vec<String>)
    ensures
        p == Platform::MacOs ==> r@.map_values(|s: String| s@) == seq!["/Users"@],
        p != Platform::MacOs ==> r@.map_values(|s: String| s@) == seq!["/run/user"@, "/home"@],
{
    let mut r: Vec<String> = Vec::new();
    if p == Platform::MacOs {
        r.push(String::from_str("/Users"));
        assert(r@.map_values(|s: String| s@) =~= seq!["/Users"@]);
    } else {
        r.push(String::from_str("/run/user"));
        r.push(String::from_str("/home"));
        assert(r@.map_values(|s: String| s@) =~= seq!["/run/user"@, "/home"@]);
    }
    r
}

/// The token locations derived from scanned home directories on Unix: each home yields the
/// `$XDG_RUNTIME_DIR` layout and the `$HOME/.cache` layout, in that order.
pub open spec fn spec_unix_candidates(entries: Seq<Seq<char>>) -> Seq<Seq<char>>
    decreases entries.len(),
{
    if entries.len() == 0 {
        seq![]
    } else {
        let e = entries.last();
        spec_unix_candidates(entries.drop_last()).push(join(Platform::Linux, join(Platform::Linux, e, TOKEN_DIR@), TOKEN_FILE@)).push(
            join(Platform::Linux, join(Platform::Linux, join(Platform::Linux, e, ".cache"@), TOKEN_DIR@), TOKEN_FILE@),
        )
    }
}

/// Token locations under each scanned home directory (both layouts a session may have
/// written into). `entries` are the directories found under the roots, in order.
pub fn unix_service_token_paths_from(entries: &Vec<String>) -> (r: Vec<String>)
    ensures
        r@.map_values(|s: String| s@) == spec_unix_candidates(entries@.map_values(|s: String| s@)),
{
    let mut r: Vec<String> = Vec::new();
    let mut i: usize = 0;
    while i < entries.len()
        invariant
            i <= entries.len(),
            r@.map_values(|s: String| s@) == spec_unix_candidates(entries@.subrange(0, i as int).map_values(|s: String| s@)),
        decreases entries.len() - i,
    {
        let mut a = chars_of(entries[i].as_str());
        push_component(Platform::Linux, &mut a, TOKEN_DIR);
        push_component(Platform::Linux, &mut a, TOKEN_FILE);
        let mut b = chars_of(entries[i].as_str());
        push_component(Platform::Linux, &mut b, ".cache");
        push_component(Platform::Linux, &mut b, TOKEN_DIR);
        push_component(Platform::Linux, &mut b, TOKEN_FILE);
        r.push(string_of(a.as_slice()));
        r.push(string_of(b.as_slice()));
        proof {
            let pre = entries@.subrange(0, i + 1).map_values(|s: String| s@);
            assert(pre.drop_last() =~= entries@.subrange(0, i as int).map_values(|s: String| s@));
            assert(pre.last() == entries@[i as int]@);
        }
        assert(r@.map_values(|s: String| s@) =~= spec_unix_candidates(entries@.subrange(0, i + 1).map_values(|s: String| s@)));
        i = i + 1;
    }
    assert(entries@.subrange(0, entries.len() as int) =~= entries@);
    r
}

/// The token location inside each Windows profile: `<profile>\AppData\Local\nexapipe\ipc.token`.
pub open spec fn spec_profile_candidates(entries: Seq<Seq<char>>) -> Seq<Seq<char>>
    decreases entries.len(),
{
    if entries.len() == 0 {
        seq![]
    } else {
        let w = Platform::Windows;
        spec_profile_candidates(entries.drop_last()).push(
            join(w, join(w, join(w, join(w, entries.last(), "AppData"@), "Local"@), TOKEN_DIR@), TOKEN_FILE@),
        )
    }
}

/// Token locations inside every profile found under the profile roots.
pub fn profile_token_paths_from(entries: &Vec<String>) -> (r: Vec<String>)
    ensures
        r@.map_values(|s: String| s@) == spec_profile_candidates(entries@.map_values(|s: String| s@)),
{
    let mut r: Vec<String> = Vec::new();
    let mut i: usize = 0;
    while i < entries.len()
        invariant
            i <= entries.len(),
            r@.map_values(|s: String| s@) == spec_profile_candidates(entries@.subrange(0, i as int).map_values(|s: String| s@)),
        decreases entries.len() - i,
    {
        let mut a = chars_of(entries[i].as_str());
        push_component(Platform::Windows, &mut a, "AppData");
        push_component(Platform::Windows, &mut a, "Local");
        push_component(Platform::Windows, &mut a, TOKEN_DIR);
        push_component(Platform::Windows, &mut a, TOKEN_FILE);
        r.push(string_of(a.as_slice()));
        proof {
            let pre = entries@.subrange(0, i + 1).map_values(|s: String| s@);
            assert(pre.drop_last() =~= entries@.subrange(0, i as int).map_values(|s: String| s@));
            assert(pre.last() == entries@[i as int]@);
        }
        assert(r@.map_values(|s: String| s@) =~= spec_profile_candidates(entries@.subrange(0, i + 1).map_values(|s: String| s@)));
        i = i + 1;
    }
    assert(entries@.subrange(0, entries.len() as int) =~= entries@);
    r
}

/// Every place the service looks for a token, in order: the override when set, the session's
/// own path, then the locations derived from scanning the homes or profiles.
pub fn service_token_paths(env_override: Option<String>, own_path: String, scanned: Vec<String>) -> (r: Vec<String>)
    ensures
        r@.map_values(|s: String| s@) == (match env_override {
            Some(o) if spec_trim(o@).len() > 0 => seq![o@],
            _ => Seq::<Seq<char>>::empty(),
        }) + seq![own_path@] + scanned@.map_values(|s: String| s@),
{
    let ghost o0 = env_override;
    let mut r: Vec<String> = Vec::new();
    match env_override {
        Some(o) => {
            if !is_blank(&o) {
                r.push(o);
            }
        },
        None => {},
    }
    r.push(own_path);
    let ghost head = r@;
    let mut rest = scanned;
    let ghost orig = rest@;
    let total = rest.len();
    let mut k: usize = 0;
    while rest.len() > 0
        invariant
            orig.len() == total,
            k + rest@.len() == orig.len(),
            rest@ == orig.subrange(k as int, orig.len() as int),
            r@ == head + orig.subrange(0, k as int),
        decreases rest@.len(),
    {
        let x = rest.remove(0);
        r.push(x);
        assert(r@ =~= head + orig.subrange(0, k + 1));
        k = k + 1;
    }
    assert(orig.subrange(0, k as int) =~= orig);
    assert(r@.map_values(|s: String| s@) =~= (match o0 {
        Some(o) if spec_trim(o@).len() > 0 => seq![o@],
        _ => Seq::<Seq<char>>::empty(),
    }) + seq![own_path@] + orig.map_values(|s: String| s@));
    r
}

/// The roots whose subdirectories are Windows profiles, without repeats: the parents of
/// `USERPROFILE` and `PUBLIC`, and `<SystemDrive>\\Users`. Under LocalSystem the first is the
/// system profile's config directory, so the other two are what find the real profiles root.
pub open spec fn spec_profile_roots(user_profile: Option<Seq<char>>, public: Option<Seq<char>>, system_drive: Option<Seq<char>>) -> Seq<Seq<char>> {
    let w = Platform::Windows;
    let a = match user_profile {
        Some(u) => match parent(w, u) {
            Some(x) => seq![x],
            None => seq![],
        },
        None => seq![],
    };
    let b = match public {
        Some(u) => match parent(w, u) {
            Some(x) => if a.contains(x) { a } else { a.push(x) },
            None => a,
        },
        None => a,
    };
    match system_drive {
        Some(d) => {
            let x = join(w, d, "Users"@);
            if b.contains(x) { b } else { b.push(x) }
        },
        None => b,
    }
}

fn push_unique(roots: &mut Vec<String>, x: String)
    ensures
        roots_view(final(roots)@) == if roots_view(old(roots)@).contains(x@) {
            roots_view(old(roots)@)
        } else {
            roots_view(old(roots)@).push(x@)
        },
{
    let mut i: usize = 0;
    while i < roots.len()
        invariant
            i <= roots.len(),
            forall|k: int| 0 <= k < i ==> roots@[k]@ != x@,
        decreases roots.len() - i,
    {
        if roots[i] == x {
            assert(roots_view(roots@)[i as int] == x@);
            return;
        }
        i = i + 1;
    }
    assert(!roots_view(roots@).contains(x@)) by {
        if roots_view(roots@).contains(x@) {
            let k = choose|k: int| 0 <= k < roots_view(roots@).len() && roots_view(roots@)[k] == x@;
            assert(roots@[k]@ == x@);
        }
    }
    roots.push(x);
    assert(roots_view(roots@) =~= roots_view(old(roots)@).push(x@));
}

/// The views of a list of paths.
pub open spec fn roots_view(v: Seq<String>) -> Seq<Seq<char>> {
    v.map_values(|s: String| s@)
}

/// The view of an optional environment value.
pub open spec fn env_view(o: Option<&str>) -> Option<Seq<char>> {
    match o {
        Some(s) => Some(s@),
        None => None,
    }
}

/// Where Windows user profiles live, from `USERPROFILE`, `PUBLIC` and `SystemDrive`.
pub fn profile_roots_from(user_profile: Option<&str>, public: Option<&str>, system_drive: Option<&str>) -> (r: Vec<String>)
    ensures
        roots_view(r@) == spec_profile_roots(env_view(user_profile), env_view(public), env_view(system_drive)),
{
    let w = Platform::Windows;
    let mut roots: Vec<String> = Vec::new();
    match user_profile {
        Some(u) => match path_parent(w, u) {
            Some(x) => push_unique(&mut roots, x),
            None => {},
        },
        None => {},
    }
    assert(roots_view(roots@) =~= match env_view(user_profile) {
        Some(u) => match parent(w, u) {
            Some(x) => seq![x],
            None => seq![],
        },
        None => seq![],
    });
    match public {
        Some(u) => match path_parent(w, u) {
            Some(x) => push_unique(&mut roots, x),
            None => {},
        },
        None => {},
    }
    match system_drive {
        Some(d) => {
            let mut v = chars_of(d);
            push_component(w, &mut v, "Users");
            push_unique(&mut roots, string_of(v.as_slice()));
        },
        None => {},
    }
    roots
}

} // verus!
