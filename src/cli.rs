//! The command line's values: the log level and the log path.
use vstd::prelude::*;

verus! {

/// What `str::to_lowercase` makes of a string.
pub uninterp spec fn lower_of(s: Seq<char>) -> Seq<char>;

/// Relies on `str::to_lowercase`: the Unicode lower case of the string,
/// which depends on its characters alone.
#[verifier::external_body]
fn lowercase(s: &str) -> (r: String)
    ensures
        r@ == lower_of(s@),
{
    s.to_lowercase()
}

/// How much the bridge logs.
#[derive(Debug, Clone, Copy, PartialEq, Eq, Structural)]
pub enum LogLevel {
    Error,
    Warn,
    Info,
    Debug,
}

/// The level a lower-case name denotes.
pub open spec fn level_named(s: Seq<char>) -> Option<LogLevel> {
    if s == "error"@ {
        Some(LogLevel::Error)
    } else if s == "warn"@ {
        Some(LogLevel::Warn)
    } else if s == "info"@ {
        Some(LogLevel::Info)
    } else if s == "debug"@ {
        Some(LogLevel::Debug)
    } else {
        None
    }
}

/// The message that rejects a log level name.
pub open spec fn invalid_level_message(input: Seq<char>) -> Seq<char> {
    "Invalid log level: '"@ + input + "'. Please choose 'error', 'warn', 'info', 'debug'"@
}

/// The level of an already lower-cased name.
pub fn level_of_lower(lower: &str) -> (r: Option<LogLevel>)
    ensures
        r == level_named(lower@),
{
    proof {
        reveal_strlit("error");
        reveal_strlit("warn");
        reveal_strlit("info");
        reveal_strlit("debug");
    }
    let s = String::from_str(lower);
    if s == String::from_str("error") {
        Some(LogLevel::Error)
    } else if s == String::from_str("warn") {
        Some(LogLevel::Warn)
    } else if s == String::from_str("info") {
        Some(LogLevel::Info)
    } else if s == String::from_str("debug") {
        Some(LogLevel::Debug)
    } else {
        None
    }
}

/// Reads a log level name in any case.
pub fn parse_log_level(input: &str) -> (r: Result<LogLevel, String>)
    ensures
        match r {
            Ok(l) => level_named(lower_of(input@)) == Some(l),
            Err(e) => level_named(lower_of(input@)) is None && e@ == invalid_level_message(input@),
        },
{
    let lower = lowercase(input);
    match level_of_lower(lower.as_str()) {
        Some(l) => Ok(l),
        None => {
            let mut e = String::new();
            e.append("Invalid log level: '");
            e.append(input);
            e.append("'. Please choose 'error', 'warn', 'info', 'debug'");
            Err(e)
        },
    }
}

impl std::str::FromStr for LogLevel {
    type Err = String;

    fn from_str(input: &str) -> Result<LogLevel, String> {
        parse_log_level(input)
    }
}

/// The code of a character in ASCII lower case.
pub open spec fn ascii_lower(c: char) -> int {
    if 'A' <= c <= 'Z' {
        (c as u32) + 32
    } else {
        c as u32 as int
    }
}

/// Whether two strings are equal when ASCII letters are compared without
/// regard to case.
pub open spec fn eq_ignore_ascii_case(a: Seq<char>, b: Seq<char>) -> bool {
    a.len() == b.len() && forall|i: int| 0 <= i < a.len() ==> ascii_lower(#[trigger] a[i]) == ascii_lower(b[i])
}

fn lower_code(c: char) -> (r: u32)
    ensures
        r as int == ascii_lower(c),
{
    if 'A' <= c && c <= 'Z' {
        (c as u32) + 32
    } else {
        c as u32
    }
}

fn equal_ignoring_ascii_case(a: &str, b: &str) -> (r: bool)
    ensures
        r == eq_ignore_ascii_case(a@, b@),
{
    let n = a.unicode_len();
    if n != b.unicode_len() {
        return false;
    }
    let mut i: usize = 0;
    while i < n
        invariant
            n == a@.len(),
            n == b@.len(),
            i <= n,
            forall|j: int| 0 <= j < i ==> ascii_lower(#[trigger] a@[j]) == ascii_lower(b@[j]),
        decreases n - i,
    {
        if lower_code(a.get_char(i)) != lower_code(b.get_char(i)) {
            return false;
        }
        i = i + 1;
    }
    true
}

/// A path that may be `none`: the word `none`, in any case, stands for no path.
#[derive(Debug, Clone)]
pub struct NoneableString(pub Option<String>);

impl NoneableString {
    /// Reads a path argument: `none` in any ASCII case means none.
    pub fn parse(s: &str) -> (r: NoneableString)
        ensures
            eq_ignore_ascii_case(s@, "none"@) ==> r.0 is None,
            !eq_ignore_ascii_case(s@, "none"@) ==> r.0 is Some && r.0->Some_0@ == s@,
    {
        if equal_ignoring_ascii_case(s, "none") {
            NoneableString(None)
        } else {
            NoneableString(Some(String::from_str(s)))
        }
    }

    /// The path, borrowed.
    pub fn as_deref(&self) -> (r: Option<&str>)
        ensures
            self.0 is None ==> r is None,
            self.0 is Some ==> r is Some && r->Some_0@ == self.0->Some_0@,
    {
        match &self.0 {
            Some(s) => Some(s.as_str()),
            None => None,
        }
    }
}

impl std::str::FromStr for NoneableString {
    type Err = String;

    fn from_str(s: &str) -> Result<NoneableString, String> {
        Ok(NoneableString::parse(s))
    }
}

/// The command line: how much to log, and where.
#[derive(Debug, Clone)]
pub struct CmdArgs {
    pub log_level: LogLevel,
    pub log_path: NoneableString,
}

/// Whether a character separates the parts of a log path.
pub open spec fn is_path_separator(c: char) -> bool {
    c == '/' || c == '\\' || c == ':'
}

/// Scanning a log path: the name built so far, and whether a separator came
/// since its last character.
pub open spec fn stem_scan(s: Seq<char>) -> (Seq<char>, bool)
    decreases s.len(),
{
    if s.len() == 0 {
        (Seq::empty(), false)
    } else {
        let (o, pending) = stem_scan(s.drop_last());
        let c = s.last();
        if is_path_separator(c) {
            (o, true)
        } else if o.len() > 0 && pending {
            (o + seq!['_', c], false)
        } else {
            (o.push(c), false)
        }
    }
}

/// The name of the log file for a log path: the path's non-empty parts
/// between separators, joined with `_`; an empty path or `/` gives
/// `emmylua_dap_log`.
pub open spec fn log_file_stem_of(path: Seq<char>) -> Seq<char> {
    if path.len() == 0 || path == "/"@ {
        "emmylua_dap_log"@
    } else {
        stem_scan(path).0
    }
}

/// The name (without extension) of the log file for a log path.
pub fn log_file_stem(path: &str) -> (r: String)
    ensures
        r@ == log_file_stem_of(path@),
{
    proof {
        reveal_strlit("/");
        reveal_strlit("emmylua_dap_log");
        reveal_strlit("_");
    }
    let n = path.unicode_len();
    if n == 0 || String::from_str(path) == String::from_str("/") {
        return String::from_str("emmylua_dap_log");
    }
    let mut out = String::new();
    let mut pending = false;
    let mut i: usize = 0;
    while i < n
        invariant
            n == path@.len(),
            i <= n,
            (out@, pending) == stem_scan(path@.take(i as int)),
        decreases n - i,
    {
        assert(path@.take(i as int + 1).drop_last() =~= path@.take(i as int));
        proof {
            reveal_strlit("_");
        }
        let c = path.get_char(i);
        if c == '/' || c == '\\' || c == ':' {
            pending = true;
        } else {
            let ghost before = out@;
            if out.as_str().unicode_len() > 0 && pending {
                out.append("_");
            }
            let one = path.substring_char(i, i + 1);
            assert(one@ =~= seq![c]);
            out.append(one);
            assert(before.len() > 0 && pending ==> out@ =~= before + seq!['_', c]);
            assert(!(before.len() > 0 && pending) ==> out@ =~= before.push(c));
            pending = false;
        }
        i = i + 1;
    }
    assert(path@.take(n as int) =~= path@);
    out
}

} // verus!
