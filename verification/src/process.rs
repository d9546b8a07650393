//! CLI process classification and the text side of login-driver
//! orchestration. Enumerating, killing and spawning processes is platform
//! work that lives outside the library; every rule about names, commands and
//! error text is verified here.

use vstd::prelude::*;
use vstd::set::Set;
use vstd::string::*;
use crate::text::{
    chars_to_string, contains_str, lower_of, lowercase, spec_contains, spec_trim, str_eq,
    trim_str,
};

verus! {

// ---------------------------------------------------------------------------
// File-name normalization
// ---------------------------------------------------------------------------

/// Path separator on either platform.
pub open spec fn is_sep_char(c: char) -> bool {
    c == '/' || c == '\\'
}

/// The sequence with leading and trailing double quotes removed.
pub open spec fn spec_strip_quotes(s: Seq<char>) -> Seq<char>
    decreases s.len(),
{
    if s.len() == 0 {
        s
    } else if s[0] == '"' {
        spec_strip_quotes(s.drop_first())
    } else if s[s.len() - 1] == '"' {
        spec_strip_quotes(s.drop_last())
    } else {
        s
    }
}

proof fn lemma_strip_quotes_range(s: Seq<char>, i: int, j: int)
    requires
        0 <= i <= j <= s.len(),
        forall|k: int| 0 <= k < i ==> s[k] == '"',
        forall|k: int| j <= k < s.len() ==> s[k] == '"',
        i < j ==> s[i] != '"',
        i < j ==> s[j - 1] != '"',
    ensures
        spec_strip_quotes(s) == s.subrange(i, j),
    decreases s.len(),
{
    if s.len() == 0 {
        assert(s.subrange(i, j) =~= s);
    } else if s[0] == '"' {
        let t = s.drop_first();
        if i == 0 {
            assert(j == 0);
            lemma_strip_quotes_range(t, 0, 0);
            assert(s.subrange(0, 0) =~= t.subrange(0, 0));
        } else {
            lemma_strip_quotes_range(t, i - 1, j - 1);
            assert(s.subrange(i, j) =~= t.subrange(i - 1, j - 1));
        }
    } else if s[s.len() - 1] == '"' {
        assert(i == 0);
        assert(j < s.len());
        let t = s.drop_last();
        lemma_strip_quotes_range(t, i, j);
        assert(s.subrange(i, j) =~= t.subrange(i, j));
    } else {
        assert(i == 0);
        assert(j == s.len());
        assert(s.subrange(0, s.len() as int) =~= s);
    }
}

fn strip_quotes(s: &str) -> (r: String)
    ensures
        r@ == spec_strip_quotes(s@),
{
    let n = s.unicode_len();
    let mut i: usize = 0;
    while i < n && s.get_char(i) == '"'
        invariant
            n == s@.len(),
            0 <= i <= n,
            forall|k: int| 0 <= k < i ==> s@[k] == '"',
        decreases n - i,
    {
        i += 1;
    }
    let mut j: usize = n;
    while j > i && s.get_char(j - 1) == '"'
        invariant
            n == s@.len(),
            0 <= i <= j <= n,
            forall|k: int| j <= k < n ==> s@[k] == '"',
            i < n ==> s@[i as int] != '"',
        decreases j,
    {
        j -= 1;
    }
    proof {
        lemma_strip_quotes_range(s@, i as int, j as int);
    }
    s.substring_char(i, j).to_owned()
}

/// The longest suffix without a path separator.
pub open spec fn spec_nonsep_suffix(s: Seq<char>) -> Seq<char>
    decreases s.len(),
{
    if s.len() == 0 {
        s
    } else if is_sep_char(s[s.len() - 1]) {
        Seq::empty()
    } else {
        spec_nonsep_suffix(s.drop_last()) + seq![s[s.len() - 1]]
    }
}

proof fn lemma_nonsep_suffix_range(s: Seq<char>, b: int)
    requires
        0 <= b <= s.len(),
        forall|k: int| b <= k < s.len() ==> !is_sep_char(s[k]),
        b > 0 ==> is_sep_char(s[b - 1]),
    ensures
        spec_nonsep_suffix(s) == s.subrange(b, s.len() as int),
    decreases s.len(),
{
    if s.len() == 0 {
        assert(s.subrange(b, s.len() as int) =~= s);
    } else if is_sep_char(s[s.len() - 1]) {
        assert(b == s.len());
        assert(s.subrange(b, s.len() as int) =~= Seq::<char>::empty());
    } else {
        let t = s.drop_last();
        lemma_nonsep_suffix_range(t, if b <= t.len() {
            b
        } else {
            t.len() as int
        });
        assert(b <= t.len());
        assert(s.subrange(b, s.len() as int) =~= t.subrange(b, t.len() as int) + seq![
            s[s.len() - 1],
        ]);
    }
}

/// The base file name: what follows the last separator, or the whole text
/// when that would be empty.
pub open spec fn spec_basename(s: Seq<char>) -> Seq<char> {
    if spec_nonsep_suffix(s).len() == 0 {
        s
    } else {
        spec_nonsep_suffix(s)
    }
}

fn basename(s: &str) -> (r: String)
    ensures
        r@ == spec_basename(s@),
{
    let n = s.unicode_len();
    let mut b: usize = n;
    while b > 0 && !(s.get_char(b - 1) == '/' || s.get_char(b - 1) == '\\')
        invariant
            n == s@.len(),
            0 <= b <= n,
            forall|k: int| b <= k < n ==> !is_sep_char(s@[k]),
        decreases b,
    {
        b -= 1;
    }
    proof {
        lemma_nonsep_suffix_range(s@, b as int);
    }
    if b == n {
        // everything after the last separator is empty: keep the whole text
        s.to_owned()
    } else {
        s.substring_char(b, n).to_owned()
    }
}

/// The original's name normalization: trim, unquote, basename, lowercase;
/// empty input normalizes to nothing.
pub open spec fn spec_normalize_file_name(raw: Seq<char>) -> Option<Seq<char>> {
    let trimmed = spec_strip_quotes(spec_trim(raw));
    if trimmed.len() == 0 {
        None
    } else {
        Some(lower_of(spec_basename(trimmed)))
    }
}

/// Normalize a process or file name for classification.
pub fn normalize_file_name(raw: &str) -> (r: Option<String>)
    ensures
        match r {
            Some(s) => spec_normalize_file_name(raw@) == Some(s@),
            None => spec_normalize_file_name(raw@) is None,
        },
{
    let trimmed = strip_quotes(trim_str(raw).as_str());
    if trimmed.as_str().unicode_len() == 0 {
        return None;
    }
    let base = basename(trimmed.as_str());
    Some(lowercase(base.as_str()))
}

// ---------------------------------------------------------------------------
// Classification
// ---------------------------------------------------------------------------

/// The name belongs to this switcher itself.
pub open spec fn spec_is_switch_name(name: Seq<char>) -> bool {
    spec_contains(name, "codex-switch"@) || spec_contains(name, "codex_switch"@)
}

/// A normalized name names the switcher itself.
pub fn is_switch_process_name(name: &str) -> (r: bool)
    ensures
        r == spec_is_switch_name(name@),
{
    contains_str(name, "codex-switch") || contains_str(name, "codex_switch")
}

/// The name is one of the CLI entry names.
pub open spec fn spec_is_entry_name(name: Seq<char>) -> bool {
    ||| name == "codex"@
    ||| name == "codex.exe"@
    ||| name == "codex.cmd"@
    ||| name == "codex.ps1"@
    ||| name == "codex.bat"@
}

/// A normalized name is one of the CLI entry names.
pub fn is_codex_entry_name(name: &str) -> (r: bool)
    ensures
        r == spec_is_entry_name(name@),
{
    str_eq(name, "codex") || str_eq(name, "codex.exe") || str_eq(name, "codex.cmd") || str_eq(
        name,
        "codex.ps1",
    ) || str_eq(name, "codex.bat")
}

/// The classification rule over normalized fields: not the switcher itself,
/// not this process's own executable, and entered through a CLI entry name in
/// the first command token, the executable name or the process name.
pub open spec fn spec_is_codex_cli(
    process_name: Seq<char>,
    exe_name: Option<Seq<char>>,
    first_cmd: Option<Seq<char>>,
    current_exe: Option<Seq<char>>,
) -> bool {
    let np = spec_normalize_file_name(process_name);
    let ne = match exe_name {
        Some(e) => spec_normalize_file_name(e),
        None => None,
    };
    let nc = match first_cmd {
        Some(c) => spec_normalize_file_name(c),
        None => None,
    };
    let ncur = match current_exe {
        Some(c) => spec_normalize_file_name(c),
        None => None,
    };
    if (np matches Some(p) && spec_is_switch_name(p)) || (ne matches Some(e)
        && spec_is_switch_name(e)) {
        false
    } else if ncur matches Some(c) && (np == Some(c) || ne == Some(c)) {
        false
    } else {
        ||| (nc matches Some(x) && spec_is_entry_name(x))
        ||| (ne matches Some(x) && spec_is_entry_name(x))
        ||| (np matches Some(x) && spec_is_entry_name(x))
    }
}

fn normalize_opt(raw: Option<&str>) -> (r: Option<String>)
    ensures
        match raw {
            Some(s) => match r {
                Some(v) => spec_normalize_file_name(s@) == Some(v@),
                None => spec_normalize_file_name(s@) is None,
            },
            None => r is None,
        },
{
    match raw {
        Some(s) => normalize_file_name(s),
        None => None,
    }
}

/// Classify one running process from its plain fields, as §CLI discovery
/// requires. `cmd_tokens` is the process's command line; only its first token
/// takes part.
pub fn is_codex_cli_process_fields(
    process_name: &str,
    exe_name: Option<&str>,
    cmd_tokens: &Vec<String>,
    current_exe: Option<&str>,
) -> (r: bool)
    ensures
        r == spec_is_codex_cli(
            process_name@,
            match exe_name {
                Some(e) => Some(e@),
                None => None,
            },
            if cmd_tokens@.len() > 0 {
                Some(cmd_tokens@[0]@)
            } else {
                None
            },
            match current_exe {
                Some(c) => Some(c@),
                None => None,
            },
        ),
{
    let np = normalize_file_name(process_name);
    let ne = normalize_opt(exe_name);
    let nc = if cmd_tokens.len() > 0 {
        normalize_file_name(cmd_tokens[0].as_str())
    } else {
        None
    };
    let switch_hit = match &np {
        Some(p) => is_switch_process_name(p.as_str()),
        None => false,
    } || match &ne {
        Some(e) => is_switch_process_name(e.as_str()),
        None => false,
    };
    if switch_hit {
        return false;
    }
    let ncur = normalize_opt(current_exe);
    match &ncur {
        Some(c) => {
            let same_p = match &np {
                Some(p) => str_eq(p.as_str(), c.as_str()),
                None => false,
            };
            let same_e = match &ne {
                Some(e) => str_eq(e.as_str(), c.as_str()),
                None => false,
            };
            if same_p || same_e {
                return false;
            }
        },
        None => {},
    }
    let hit_c = match &nc {
        Some(x) => is_codex_entry_name(x.as_str()),
        None => false,
    };
    let hit_e = match &ne {
        Some(x) => is_codex_entry_name(x.as_str()),
        None => false,
    };
    let hit_p = match &np {
        Some(x) => is_codex_entry_name(x.as_str()),
        None => false,
    };
    hit_c || hit_e || hit_p
}

// ---------------------------------------------------------------------------
// Login text helpers
// ---------------------------------------------------------------------------

/// The stderr text names `--web` together with a flag-unknown phrase.
pub open spec fn spec_web_login_unsupported(message: Seq<char>) -> bool {
    let lower = lower_of(message);
    spec_contains(lower, "--web"@) && (spec_contains(lower, "unexpected argument"@)
        || spec_contains(lower, "wasn't expected"@) || spec_contains(lower, "unknown option"@)
        || spec_contains(lower, "unrecognized option"@) || spec_contains(lower, "no such option"@))
}

/// The login error signature that makes the driver fall back from
/// `codex login --web` to plain `codex login`.
pub fn is_web_login_unsupported(message: &str) -> (r: bool)
    ensures
        r == spec_web_login_unsupported(message@),
{
    let lower = lowercase(message);
    let has_web_flag = contains_str(lower.as_str(), "--web");
    let unsupported = contains_str(lower.as_str(), "unexpected argument") || contains_str(
        lower.as_str(),
        "wasn't expected",
    ) || contains_str(lower.as_str(), "unknown option") || contains_str(
        lower.as_str(),
        "unrecognized option",
    ) || contains_str(lower.as_str(), "no such option");
    has_web_flag && unsupported
}

/// Newlines flattened to spaces.
pub open spec fn spec_flatten(s: Seq<char>) -> Seq<char> {
    s.map(|_i: int, c: char| if c == '\n' || c == '\r' {
        ' '
    } else {
        c
    })
}

pub fn flatten_newlines(s: &str) -> (r: String)
    ensures
        r@ == spec_flatten(s@),
{
    let n = s.unicode_len();
    let mut out: Vec<char> = Vec::new();
    let mut i: usize = 0;
    while i < n
        invariant
            n == s@.len(),
            0 <= i <= n,
            out@ == spec_flatten(s@).take(i as int),
        decreases n - i,
    {
        let c = s.get_char(i);
        if c == '\n' || c == '\r' {
            out.push(' ');
        } else {
            out.push(c);
        }
        proof {
            assert(out@ =~= spec_flatten(s@).take(i as int + 1));
        }
        i += 1;
    }
    proof {
        assert(spec_flatten(s@).take(n as int) =~= spec_flatten(s@));
    }
    chars_to_string(&out)
}

/// Stderr flattened to one line, trimmed, cut at `max_len` characters with a
/// trailing ellipsis.
pub open spec fn spec_truncate_for_error(text: Seq<char>, max_len: int) -> Seq<char> {
    let cleaned = spec_trim(spec_flatten(text));
    if cleaned.len() <= max_len {
        cleaned
    } else {
        cleaned.take(max_len) + "..."@
    }
}

/// Flatten and bound captured process output for an error message.
pub fn truncate_for_error(text: &str, max_len: usize) -> (r: String)
    ensures
        r@ == spec_truncate_for_error(text@, max_len as int),
{
    let cleaned = trim_str(flatten_newlines(text).as_str());
    if cleaned.as_str().unicode_len() <= max_len {
        cleaned
    } else {
        proof {
            assert(spec_trim(spec_flatten(text@)).take(max_len as int) =~= spec_trim(
                spec_flatten(text@),
            ).subrange(0, max_len as int));
        }
        cleaned.as_str().substring_char(0, max_len).to_owned().concat("...")
    }
}

/// The space-joined argument list.
pub open spec fn spec_join_spaces(args: Seq<Seq<char>>) -> Seq<char>
    decreases args.len(),
{
    if args.len() == 0 {
        Seq::empty()
    } else if args.len() == 1 {
        args[0]
    } else {
        spec_join_spaces(args.drop_last()) + " "@ + args[args.len() - 1]
    }
}

/// The display text of a login command: `codex` followed by its arguments.
pub fn format_login_command(args: &Vec<String>) -> (r: String)
    ensures
        r@ == "codex "@ + spec_join_spaces(args@.map(|_i: int, a: String| a@)),
{
    let mut joined = String::new();
    let n = args.len();
    let mut i: usize = 0;
    while i < n
        invariant
            n == args@.len(),
            0 <= i <= n,
            joined@ == spec_join_spaces(args@.map(|_i: int, a: String| a@).take(i as int)),
        decreases n - i,
    {
        if i > 0 {
            joined = joined.concat(" ");
        }
        joined = joined.concat(args[i].as_str());
        proof {
            let views = args@.map(|_i: int, a: String| a@);
            assert(views.take(i as int + 1).drop_last() =~= views.take(i as int));
            assert(views.take(i as int + 1)[i as int] == views[i as int]);
            if i > 0 {
                assert(joined@ =~= spec_join_spaces(views.take(i as int + 1)));
            } else {
                assert(views.take(1int).len() == 1);
                assert(joined@ =~= spec_join_spaces(views.take(1int)));
            }
        }
        i += 1;
    }
    proof {
        let views = args@.map(|_i: int, a: String| a@);
        assert(views.take(n as int) =~= views);
    }
    "codex ".to_owned().concat(joined.as_str())
}

// ---------------------------------------------------------------------------
// Login launch targets
// ---------------------------------------------------------------------------

/// One way to launch the CLI: a program with fixed leading arguments and a
/// display form for diagnostics.
#[derive(Debug, Clone)]
pub struct CodexCommandTarget {
    pub program: String,
    pub prefix_args: Vec<String>,
    pub display: String,
}

/// The mathematical shadow of a launch target.
pub struct CodexCommandTargetView {
    pub program: Seq<char>,
    pub prefix_args: Seq<Seq<char>>,
    pub display: Seq<char>,
}

impl View for CodexCommandTarget {
    type V = CodexCommandTargetView;

    open spec fn view(&self) -> CodexCommandTargetView {
        CodexCommandTargetView {
            program: self.program@,
            prefix_args: self.prefix_args.deep_view(),
            display: self.display@,
        }
    }
}

/// The lowercased arguments joined with pipes.
pub open spec fn spec_join_pipe_lower(args: Seq<Seq<char>>) -> Seq<char>
    decreases args.len(),
{
    if args.len() == 0 {
        Seq::empty()
    } else if args.len() == 1 {
        lower_of(args[0])
    } else {
        spec_join_pipe_lower(args.drop_last()) + "|"@ + lower_of(args[args.len() - 1])
    }
}

/// The identity of a launch target: its lowercased program and arguments.
pub open spec fn spec_target_key(t: CodexCommandTargetView) -> Seq<char> {
    lower_of(t.program) + "|"@ + spec_join_pipe_lower(t.prefix_args)
}

/// Targets with the first occurrence of each key kept.
pub open spec fn spec_dedupe_targets(
    ts: Seq<CodexCommandTargetView>,
    i: int,
    seen: Set<Seq<char>>,
) -> Seq<CodexCommandTargetView>
    decreases ts.len() - i,
{
    if i < 0 || i >= ts.len() {
        Seq::empty()
    } else {
        let k = spec_target_key(ts[i]);
        if seen.contains(k) {
            spec_dedupe_targets(ts, i + 1, seen)
        } else {
            seq![ts[i]] + spec_dedupe_targets(ts, i + 1, seen.insert(k))
        }
    }
}

/// Views of a target list.
pub open spec fn targets_view(v: Seq<CodexCommandTarget>) -> Seq<CodexCommandTargetView> {
    v.map(|_i: int, t: CodexCommandTarget| t@)
}

fn clone_target(t: &CodexCommandTarget) -> (r: CodexCommandTarget)
    ensures
        r@ == t@,
{
    let mut args: Vec<String> = Vec::new();
    let n = t.prefix_args.len();
    let mut i: usize = 0;
    while i < n
        invariant
            n == t.prefix_args@.len(),
            0 <= i <= n,
            args@.len() == i,
            forall|k: int| 0 <= k < i ==> args@[k]@ == t.prefix_args@[k]@,
        decreases n - i,
    {
        args.push(t.prefix_args[i].clone());
        i += 1;
    }
    proof {
        assert(args.deep_view() =~= t.prefix_args.deep_view());
    }
    CodexCommandTarget {
        program: t.program.clone(),
        prefix_args: args,
        display: t.display.clone(),
    }
}

fn target_key(t: &CodexCommandTarget) -> (r: String)
    ensures
        r@ == spec_target_key(t@),
{
    let mut joined = String::new();
    let n = t.prefix_args.len();
    let mut i: usize = 0;
    while i < n
        invariant
            n == t.prefix_args@.len(),
            0 <= i <= n,
            joined@ == spec_join_pipe_lower(t.prefix_args.deep_view().take(i as int)),
        decreases n - i,
    {
        if i > 0 {
            joined = joined.concat("|");
        }
        let lowered = lowercase(t.prefix_args[i].as_str());
        joined = joined.concat(lowered.as_str());
        proof {
            let views = t.prefix_args.deep_view();
            assert(views.take(i as int + 1).drop_last() =~= views.take(i as int));
            assert(views.take(i as int + 1)[i as int] == views[i as int]);
            assert(views[i as int] == t.prefix_args@[i as int]@);
            if i > 0 {
                assert(joined@ =~= spec_join_pipe_lower(views.take(i as int + 1)));
            } else {
                assert(views.take(1int).len() == 1);
                assert(joined@ =~= spec_join_pipe_lower(views.take(1int)));
            }
        }
        i += 1;
    }
    proof {
        assert(t.prefix_args.deep_view().take(n as int) =~= t.prefix_args.deep_view());
    }
    lowercase(t.program.as_str()).concat("|").concat(joined.as_str())
}

#[verifier::loop_isolation(false)]
fn keys_contain(keys: &Vec<String>, key: &str) -> (r: bool)
    ensures
        r == keys.deep_view().contains(key@),
{
    let n = keys.len();
    let mut i: usize = 0;
    while i < n
        invariant
            0 <= i <= n,
            forall|k: int| 0 <= k < i ==> keys.deep_view()[k] != key@,
        decreases n - i,
    {
        proof {
            assert(keys.deep_view()[i as int] == keys@[i as int]@);
        }
        if str_eq(keys[i].as_str(), key) {
            proof {
                assert(keys.deep_view().contains(key@));
            }
            return true;
        }
        i += 1;
    }
    proof {
        if keys.deep_view().contains(key@) {
            let k = choose|k: int| 0 <= k < keys.deep_view().len() && keys.deep_view()[k] == key@;
            assert(false);
        }
    }
    false
}

/// Keep the first launch target for each program-and-arguments identity,
/// preserving order.
#[verifier::loop_isolation(false)]
pub fn dedupe_command_targets(targets: Vec<CodexCommandTarget>) -> (r: Vec<CodexCommandTarget>)
    ensures
        targets_view(r@) == spec_dedupe_targets(targets_view(targets@), 0, Set::empty()),
{
    let n = targets.len();
    let mut out: Vec<CodexCommandTarget> = Vec::new();
    let mut seen_keys: Vec<String> = Vec::new();
    let ghost mut seen: Set<Seq<char>> = Set::empty();
    let mut i: usize = 0;
    while i < n
        invariant
            0 <= i <= n,
            targets_view(out@) + spec_dedupe_targets(targets_view(targets@), i as int, seen)
                == spec_dedupe_targets(targets_view(targets@), 0, Set::empty()),
            forall|t: Seq<char>| seen.contains(t) == seen_keys.deep_view().contains(t),
        decreases n - i,
    {
        let ghost prev_out = out@;
        let ghost prev_seen = seen;
        let ghost prev_keys = seen_keys.deep_view();
        proof {
            assert(targets_view(targets@)[i as int] == targets@[i as int]@);
            assert(forall|t2: Seq<char>|
                prev_seen.contains(t2) == prev_keys.contains(t2));
        }
        let key = target_key(&targets[i]);
        if !keys_contain(&seen_keys, key.as_str()) {
            out.push(clone_target(&targets[i]));
            seen_keys.push(key);
            proof {
                seen = prev_seen.insert(spec_target_key(targets@[i as int]@));
                assert(targets_view(out@) =~= targets_view(prev_out).push(targets@[i as int]@));
                assert(targets_view(out@) + spec_dedupe_targets(
                    targets_view(targets@),
                    i as int + 1,
                    seen,
                ) =~= targets_view(prev_out) + spec_dedupe_targets(
                    targets_view(targets@),
                    i as int,
                    prev_seen,
                ));
                assert(seen_keys.deep_view() =~= prev_keys.push(
                    spec_target_key(targets@[i as int]@),
                ));
                assert forall|t2: Seq<char>|
                    seen.contains(t2) == seen_keys.deep_view().contains(t2) by {
                    if seen.contains(t2) {
                        if prev_seen.contains(t2) {
                            let k = choose|k: int|
                                0 <= k < prev_keys.len() && prev_keys[k] == t2;
                            assert(seen_keys.deep_view()[k] == t2);
                        } else {
                            assert(seen_keys.deep_view().last() == t2);
                        }
                    }
                    if seen_keys.deep_view().contains(t2) {
                        let k = choose|k: int|
                            0 <= k < seen_keys.deep_view().len() && seen_keys.deep_view()[k]
                                == t2;
                        if k < seen_keys.deep_view().len() - 1 {
                            assert(prev_keys[k] == t2);
                            assert(prev_keys.contains(t2));
                        }
                    }
                }
            }
        } else {
            proof {
                assert(spec_dedupe_targets(targets_view(targets@), i as int, seen)
                    == spec_dedupe_targets(targets_view(targets@), i as int + 1, seen));
            }
        }
        i += 1;
    }
    proof {
        assert(targets_view(out@) + spec_dedupe_targets(targets_view(targets@), n as int, seen)
            =~= targets_view(out@));
    }
    out
}

} // verus!
