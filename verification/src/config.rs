//! Configuration decisions: which token wins, where the config file lives, whether its
//! permissions are safe, and what a written config file holds. Reading the environment
//! and the file system is the caller's.

use vstd::prelude::*;

use crate::error::Error;
use crate::jmap::opt_text;
use crate::text;

verus! {

/// Where the token was found.
#[derive(Debug, Clone, Copy, PartialEq, Eq, Structural)]
pub enum TokenSource {
    EnvVar,
    ConfigFile,
}

/// The token chosen from the environment's and the config file's values: a non-empty
/// environment value wins, else a non-empty file value; otherwise there is none.
pub open spec fn chosen_token(env: Option<Seq<char>>, file: Option<Seq<char>>) -> Option<(Seq<char>, TokenSource)> {
    match env {
        Some(e) if e.len() > 0 => Some((e, TokenSource::EnvVar)),
        _ => match file {
            Some(f) if f.len() > 0 => Some((f, TokenSource::ConfigFile)),
            _ => None,
        },
    }
}

/// Whether the environment's value settles the token, so the config file need not be read.
pub fn env_token_usable(env: &Option<String>) -> (r: bool)
    ensures
        r == (opt_text(*env) matches Some(e) && e.len() > 0),
{
    match env {
        Some(e) => !e.as_str().is_empty(),
        None => false,
    }
}

/// Resolve the API token. Precedence: environment variable > config file; neither is the
/// missing-token error.
pub fn choose_token(env: Option<String>, file: Option<String>) -> (r: Result<(String, TokenSource), Error>)
    ensures
        match chosen_token(opt_text(env), opt_text(file)) {
            Some((t, src)) => r matches Ok((s, x)) && s@ == t && x == src,
            None => r matches Err(Error::MissingToken),
        },
{
    if let Some(e) = env {
        if !e.as_str().is_empty() {
            return Ok((e, TokenSource::EnvVar));
        }
    }
    if let Some(f) = file {
        if !f.as_str().is_empty() {
            return Ok((f, TokenSource::ConfigFile));
        }
    }
    Err(Error::MissingToken)
}

/// `part` appended to the path `base` as `PathBuf::push` appends a relative part: with a
/// `/` between them unless `base` is empty or already ends with one.
pub open spec fn path_join(base: Seq<char>, part: Seq<char>) -> Seq<char> {
    if base.len() == 0 {
        part
    } else if base.last() == '/' {
        base + part
    } else {
        base + "/"@ + part
    }
}

/// Append a relative part to a path (see `path_join`).
pub fn join_path(base: &str, part: &str) -> (r: String)
    ensures
        r@ == path_join(base@, part@),
{
    let cs = text::chars_of(base);
    if cs.len() == 0 {
        text::own(part)
    } else if cs[cs.len() - 1] == '/' {
        text::concat(base, part)
    } else {
        text::concat3(base, "/", part)
    }
}

/// The directory configuration lives under: `$XDG_CONFIG_HOME`, else `$HOME/.config`
/// (with `.` for an unknown home).
pub open spec fn config_base(xdg: Option<Seq<char>>, home: Option<Seq<char>>) -> Seq<char> {
    match xdg {
        Some(x) => x,
        None => path_join(match home { Some(h) => h, None => "."@ }, ".config"@),
    }
}

/// The config file path: `fastermail/config.toml` under the configuration directory.
pub open spec fn config_file_path(xdg: Option<Seq<char>>, home: Option<Seq<char>>) -> Seq<char> {
    path_join(path_join(config_base(xdg, home), "fastermail"@), "config.toml"@)
}

/// Wherever the configuration directory is, the config file path ends with
/// `fastermail/config.toml`.
pub proof fn law_config_path_suffix(xdg: Option<Seq<char>>, home: Option<Seq<char>>)
    ensures
        ({
            let p = config_file_path(xdg, home);
            let s = "fastermail/config.toml"@;
            p.len() >= s.len() && p.subrange(p.len() - s.len(), p.len() as int) == s
        }),
{
    reveal_strlit("fastermail/config.toml");
    reveal_strlit("fastermail");
    reveal_strlit("config.toml");
    reveal_strlit("/");
    let base = config_base(xdg, home);
    let d = path_join(base, "fastermail"@);
    let f = "fastermail"@;
    assert(d.len() >= f.len() && d.subrange(d.len() - f.len(), d.len() as int) =~= f);
    assert(d.len() > 0 && d.last() == 'l');
    let p = config_file_path(xdg, home);
    assert(p == d + "/"@ + "config.toml"@);
    let s = "fastermail/config.toml"@;
    assert(p.subrange(p.len() - s.len(), p.len() as int) =~= s);
}

/// Standard config file path from the values of `XDG_CONFIG_HOME` and `HOME` (see
/// `config_file_path`).
pub fn config_path(xdg: Option<&str>, home: Option<&str>) -> (r: String)
    ensures
        r@ == config_file_path(
            match xdg { Some(x) => Some(x@), None => None },
            match home { Some(h) => Some(h@), None => None },
        ),
{
    let base = match xdg {
        Some(x) => text::own(x),
        None => join_path(match home { Some(h) => h, None => "." }, ".config"),
    };
    let dir = join_path(base.as_str(), "fastermail");
    join_path(dir.as_str(), "config.toml")
}

/// The octal digit character for `d < 8`.
pub open spec fn octal_digit(d: nat) -> char {
    text::digit_char(d)
}

/// `n < 512` as `{:04o}` writes it: four octal digits, the first of them `0`.
pub open spec fn octal4(n: nat) -> Seq<char> {
    seq!['0', octal_digit(n / 64), octal_digit((n / 8) % 8), octal_digit(n % 8)]
}

fn octal_char(d: u32) -> (c: char)
    requires
        d < 8,
    ensures
        c == octal_digit(d as nat),
{
    match d {
        0 => '0',
        1 => '1',
        2 => '2',
        3 => '3',
        4 => '4',
        5 => '5',
        6 => '6',
        _ => '7',
    }
}

/// The refusal of a config file whose mode gives the group or others any access.
pub open spec fn insecure_message(path: Seq<char>, mode: nat) -> Seq<char> {
    "config file "@ + path + " has insecure permissions "@ + octal4(mode % 512)
        + " (expected 0600). Fix with: chmod 600 "@ + path
}

/// Check that a config file is not readable by others: its permission `mode` may give
/// no bit to the group or to others (`mode & 0o077 == 0`), else the refusal names the
/// file and its permission bits.
pub fn check_permissions(path: &str, mode: u32) -> (r: Result<(), Error>)
    ensures
        mode % 64 == 0 <==> r is Ok,
        r matches Err(e) ==> (e matches Error::InvalidParams(m) && m@ == insecure_message(path@, mode as nat)),
{
    let open = mode & 0o077;
    assert(mode & 0o077 == mode % 64) by (bit_vector);
    if open == 0 {
        return Ok(());
    }
    let bits = mode & 0o777;
    assert(mode & 0o777 == mode % 512) by (bit_vector);
    let digits = vec!['0', octal_char(bits / 64), octal_char((bits / 8) % 8), octal_char(bits % 8)];
    assert(digits@ =~= octal4(bits as nat));
    let octal = text::string_of(&digits);
    let a = text::concat3("config file ", path, " has insecure permissions ");
    let b = text::concat3(a.as_str(), octal.as_str(), " (expected 0600). Fix with: chmod 600 ");
    let msg = text::concat(b.as_str(), path);
    Err(Error::InvalidParams(msg))
}

/// What `toml::Value::String(s)` displays as: `s` as a TOML string literal, quoted and
/// escaped. It depends on `s` alone.
pub uninterp spec fn toml_string_literal(s: Seq<char>) -> Seq<char>;

/// `toml::Value::String(s).to_string()` of the `toml` crate: the TOML literal of `s`.
/// Serialising a string value writes into a `String` and cannot fail.
#[verifier::external_body]
fn toml_string(s: &str) -> (r: String)
    ensures
        r@ == toml_string_literal(s@),
{
    toml::Value::String(s.to_string()).to_string()
}

/// The contents of a config file holding `token`.
pub open spec fn config_text(token: Seq<char>) -> Seq<char> {
    "[auth]\ntoken = "@ + toml_string_literal(token) + "\n"@
}

/// The config file written for `token`: an `[auth]` table with the token as a TOML string.
pub fn config_contents(token: &str) -> (r: String)
    ensures
        r@ == config_text(token@),
{
    let quoted = toml_string(token);
    text::concat3("[auth]\ntoken = ", quoted.as_str(), "\n")
}

} // verus!
