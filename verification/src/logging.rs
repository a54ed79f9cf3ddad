//! Names for logs: the identity of a command, the name of the server behind it, and
//! the log file and its directory.

use std::collections::hash_map::DefaultHasher;

use vstd::prelude::*;
use vstd::std_specs::hash::DefaultHasherAdditionalSpecFns;
use vstd::string::*;

use crate::cli::texts;
use crate::fingerprint::{
    count_writes, digest, digest_text, new_hasher, text_writes, texts_writes, write_count,
    write_text, write_texts,
};
use crate::text::{
    chars_of, ends_with, join, lemma_hex_digits, lemma_hex_len, part, starts_with, string_of,
    text_eq,
};

verus! {

/// What is fed to the hasher for a command: its name, the number of its arguments,
/// and each of them.
pub open spec fn command_writes(cmd: Seq<char>, args: Seq<Seq<char>>) -> Seq<Seq<u8>> {
    text_writes(cmd) + count_writes(args.len()) + texts_writes(args)
}

/// The identity of a command: the first eight digits of its fingerprint.
pub open spec fn command_hash(cmd: Seq<char>, args: Seq<Seq<char>>) -> Seq<char> {
    digest(command_writes(cmd, args)).subrange(0, 8)
}

/// The identity of a command.
pub fn cmd_hash(cmd: &str, args: &[String]) -> (hash: String)
    ensures
        hash@ == command_hash(cmd@, texts(args@)),
        hash@.len() == 8,
{
    let mut hasher = new_hasher();
    write_text(&mut hasher, cmd);
    write_count(&mut hasher, args.len());
    write_texts(&mut hasher, args);
    assert(hasher@ =~= command_writes(cmd@, texts(args@)));
    let full = digest_text(&hasher);
    proof {
        lemma_hex_len(DefaultHasher::spec_finish(hasher@) as nat, 16);
    }
    let chars = chars_of(full.as_str());
    part(&chars, 0, 8)
}

/// Whether Unicode has a character among the letters and numbers.
pub uninterp spec fn alphanumeric(c: char) -> bool;

/// `char::is_alphanumeric`: whether a character is a letter or a number by Unicode.
/// Among the ASCII characters those are the letters and the digits.
#[verifier::external_body]
fn is_alphanumeric(c: char) -> (b: bool)
    ensures
        b == alphanumeric(c),
        (c as u32) < 128 ==> b == ('a' <= c <= 'z' || 'A' <= c <= 'Z' || '0' <= c <= '9'),
{
    c.is_alphanumeric()
}

/// Whether a character is a letter or a number: among the ASCII characters the letters
/// and the digits, elsewhere what Unicode says.
pub open spec fn is_letter_or_number(c: char) -> bool {
    if (c as u32) < 128 {
        'a' <= c <= 'z' || 'A' <= c <= 'Z' || '0' <= c <= '9'
    } else {
        alphanumeric(c)
    }
}

/// What a character becomes in a file name.
pub open spec fn sanitized_char(c: char) -> char {
    if is_letter_or_number(c) || c == '-' || c == '_' {
        c
    } else {
        '_'
    }
}

/// What a text becomes in a file name.
pub open spec fn sanitized(s: Seq<char>) -> Seq<char> {
    Seq::new(s.len(), |i: int| sanitized_char(s[i]))
}

/// The ASCII characters that a file name may hold: letters, digits, `-` and `_`.
pub open spec fn is_plain(c: char) -> bool {
    'a' <= c <= 'z' || 'A' <= c <= 'Z' || '0' <= c <= '9' || c == '-' || c == '_'
}

/// Makes a text fit for a file name: letters, numbers, `-` and `_` stay, and every
/// other character becomes `_`. So no separator of directories is left.
pub fn sanitize_name(name: &str) -> (s: String)
    ensures
        s@ == sanitized(name@),
        forall|i: int|
            0 <= i < s@.len() && (#[trigger] s@[i] as u32) < 128 ==> is_plain(s@[i]),
{
    let chars = chars_of(name);
    let mut out: Vec<char> = Vec::new();
    let mut i: usize = 0;
    while i < chars.len()
        invariant
            i <= chars@.len(),
            chars@ == name@,
            out@.len() == i,
            forall|k: int| 0 <= k < i ==> out@[k] == sanitized_char(name@[k]),
            forall|k: int|
                0 <= k < i && (#[trigger] out@[k] as u32) < 128 ==> is_plain(out@[k]),
        decreases chars@.len() - i,
    {
        let c = chars[i];
        out.push(
            if is_alphanumeric(c) || c == '-' || c == '_' {
                c
            } else {
                '_'
            },
        );
        i = i + 1;
    }
    assert(out@ =~= sanitized(name@));
    string_of(&out)
}

/// What follows the last `mark`, or everything where there is none.
pub open spec fn after_last(s: Seq<char>, mark: char) -> Seq<char>
    decreases s.len(),
{
    if s.len() == 0 || s.last() == mark {
        Seq::empty()
    } else {
        after_last(s.drop_last(), mark).push(s.last())
    }
}

/// What stands before the first `mark`, or everything where there is none.
pub open spec fn before_first(s: Seq<char>, mark: char) -> Seq<char>
    decreases s.len(),
{
    if s.len() == 0 || s[0] == mark {
        Seq::empty()
    } else {
        seq![s[0]] + before_first(s.subrange(1, s.len() as int), mark)
    }
}

/// The last component of a path that names a file: empty components and `.` do not
/// count, and there is none where the last is `..`.
pub open spec fn file_name(path: Seq<char>) -> Option<Seq<char>>
    decreases path.len(),
{
    let name = after_last(path, '/');
    if path.len() == 0 || name == seq!['.', '.'] {
        None
    } else if name.len() == 0 || name == seq!['.'] {
        file_name(path.drop_last())
    } else {
        Some(name)
    }
}

/// A file name without its extension: what stands before its last dot, unless that
/// dot is its first character.
pub open spec fn stem(name: Seq<char>) -> Seq<char> {
    let extension = after_last(name, '.');
    if extension.len() + 1 >= name.len() {
        name
    } else {
        name.subrange(0, name.len() - extension.len() - 1)
    }
}

/// The name of the file that a path leads to, without its extension.
pub open spec fn file_stem(path: Seq<char>) -> Option<Seq<char>> {
    match file_name(path) {
        Some(name) => Some(stem(name)),
        None => None,
    }
}

/// Where what follows the last `mark` before `end` begins.
fn last_part_start(chars: &Vec<char>, end: usize, mark: char) -> (start: usize)
    requires
        end <= chars@.len(),
    ensures
        start <= end,
        chars@.subrange(start as int, end as int) == after_last(
            chars@.subrange(0, end as int),
            mark,
        ),
        start == 0 || chars@[start - 1] == mark,
        forall|k: int| start <= k < end ==> chars@[k] != mark,
{
    let mut start: usize = end;
    while start > 0 && chars[start - 1] != mark
        invariant
            start <= end <= chars@.len(),
            forall|k: int| start <= k < end ==> chars@[k] != mark,
        decreases start,
    {
        start = start - 1;
    }
    proof {
        lemma_after_last(chars@.subrange(0, end as int), mark, start as int);
        assert(chars@.subrange(0, end as int).subrange(start as int, end as int)
            =~= chars@.subrange(start as int, end as int));
    }
    start
}

proof fn lemma_after_last(s: Seq<char>, mark: char, start: int)
    requires
        0 <= start <= s.len(),
        start == 0 || s[start - 1] == mark,
        forall|k: int| start <= k < s.len() ==> s[k] != mark,
    ensures
        after_last(s, mark) == s.subrange(start, s.len() as int),
    decreases s.len(),
{
    if start < s.len() {
        lemma_after_last(s.drop_last(), mark, start);
        assert(s.drop_last().subrange(start, s.len() - 1).push(s.last()) =~= s.subrange(
            start,
            s.len() as int,
        ));
    } else {
        assert(s.subrange(start, s.len() as int) =~= Seq::empty());
    }
}

/// The name of the file that a path leads to, without its extension.
pub fn stem_of_path(path: &str) -> (s: Option<String>)
    ensures
        match s {
            Some(s) => file_stem(path@) == Some(s@),
            None => file_stem(path@) is None,
        },
{
    let chars = chars_of(path);
    let mut end: usize = chars.len();
    assert(chars@.subrange(0, end as int) =~= path@);
    while end > 0
        invariant
            chars@ == path@,
            end <= chars@.len(),
            file_name(chars@.subrange(0, end as int)) == file_name(path@),
        decreases end,
    {
        let start = last_part_start(&chars, end, '/');
        let ghost whole = chars@.subrange(0, end as int);
        let ghost name = chars@.subrange(start as int, end as int);
        let width: usize = end - start;
        if width == 2 && chars[start] == '.' && chars[start + 1] == '.' {
            assert(name =~= seq!['.', '.']);
            return None;
        }
        if width == 0 || (width == 1 && chars[start] == '.') {
            assert(whole.drop_last() =~= chars@.subrange(0, end - 1));
            assert(name.len() == 1 ==> name =~= seq!['.']);
            end = end - 1;
        } else {
            assert(name != seq!['.', '.'] && name != seq!['.']) by {
                assert(name.len() > 0 ==> name[0] == chars@[start as int]);
                assert(name.len() > 1 ==> name[1] == chars@[start + 1]);
                assert(seq!['.'][0] == '.');
                assert(seq!['.', '.'][0] == '.' && seq!['.', '.'][1] == '.');
            }
            let dot = last_part_start(&chars, end, '.');
            proof {
                lemma_extension(chars@, start as int, end as int, dot as int);
            }
            if dot > start + 1 {
                return Some(part(&chars, start, dot - 1));
            }
            return Some(part(&chars, start, end));
        }
    }
    None
}

/// The extension of a name within a longer text, given where the last dot before its
/// end is.
proof fn lemma_extension(s: Seq<char>, start: int, end: int, dot: int)
    requires
        0 <= start <= end <= s.len(),
        0 <= dot <= end,
        dot == 0 || s[dot - 1] == '.',
        forall|k: int| dot <= k < end ==> s[k] != '.',
    ensures
        stem(s.subrange(start, end)) == if dot > start + 1 {
            s.subrange(start, dot - 1)
        } else {
            s.subrange(start, end)
        },
{
    let name = s.subrange(start, end);
    if dot > start {
        lemma_after_last(name, '.', dot - start);
        if dot > start + 1 {
            assert(name.subrange(0, dot - 1 - start) =~= s.subrange(start, dot - 1));
        }
    } else {
        lemma_after_last(name, '.', 0);
    }
}

/// The first argument that is no option.
pub open spec fn first_operand(args: Seq<Seq<char>>) -> Option<Seq<char>>
    decreases args.len(),
{
    if args.len() == 0 {
        None
    } else if args[0].len() > 0 && args[0][0] == '-' {
        first_operand(args.subrange(1, args.len() as int))
    } else {
        Some(args[0])
    }
}

/// The name of the server behind a command, unless it is given one: the package that
/// `npx` runs, the script that Python runs, or the command itself.
pub open spec fn inferred_name(cmd: Seq<char>, args: Seq<Seq<char>>) -> Seq<char> {
    if cmd == "npx"@ && first_operand(args) is Some {
        before_first(after_last(first_operand(args)->0, '/'), '@')
    } else if (cmd == "python3"@ || cmd == "python"@) && args.len() > 0 && file_stem(
        args[0],
    ) is Some {
        file_stem(args[0])->0
    } else if ".sh"@.is_suffix_of(cmd) && file_stem(cmd) is Some {
        file_stem(cmd)->0
    } else {
        cmd
    }
}

/// The name of the server behind a command, as part of a file name.
pub open spec fn server_name(
    given: Option<Seq<char>>,
    cmd: Seq<char>,
    args: Seq<Seq<char>>,
) -> Seq<char> {
    match given {
        Some(name) => sanitized(name),
        None => sanitized(inferred_name(cmd, args)),
    }
}

/// The package that an argument of `npx` names, without its scope and version.
fn package_name(arg: &str) -> (s: String)
    ensures
        s@ == before_first(after_last(arg@, '/'), '@'),
{
    let chars = chars_of(arg);
    let end: usize = chars.len();
    assert(chars@.subrange(0, end as int) =~= arg@);
    let start = last_part_start(&chars, end, '/');
    let ghost name = chars@.subrange(start as int, end as int);
    let mut stop: usize = start;
    while stop < end && chars[stop] != '@'
        invariant
            start <= stop <= end == chars@.len(),
            forall|k: int| start <= k < stop ==> chars@[k] != '@',
        decreases end - stop,
    {
        stop = stop + 1;
    }
    proof {
        lemma_before_first(name, '@', stop - start);
        assert(name.subrange(0, stop - start) =~= chars@.subrange(start as int, stop as int));
    }
    part(&chars, start, stop)
}

proof fn lemma_before_first(s: Seq<char>, mark: char, stop: int)
    requires
        0 <= stop <= s.len(),
        stop == s.len() || s[stop] == mark,
        forall|k: int| 0 <= k < stop ==> s[k] != mark,
    ensures
        before_first(s, mark) == s.subrange(0, stop),
    decreases s.len(),
{
    if stop > 0 {
        let rest = s.subrange(1, s.len() as int);
        lemma_before_first(rest, mark, stop - 1);
        assert(seq![s[0]] + rest.subrange(0, stop - 1) =~= s.subrange(0, stop));
    } else {
        assert(s.subrange(0, 0) =~= Seq::empty());
    }
}

/// Where the first argument that is no option stands.
fn find_operand(args: &[String]) -> (i: usize)
    ensures
        i <= args@.len(),
        i < args@.len() ==> first_operand(texts(args@)) == Some(args@[i as int]@),
        i == args@.len() ==> first_operand(texts(args@)) is None,
{
    let ghost words = texts(args@);
    let mut i: usize = 0;
    assert(words.subrange(0, words.len() as int) =~= words);
    proof {
        reveal_strlit("-");
        assert("-"@ =~= seq!['-']);
    }
    while i < args.len()
        invariant
            i <= args@.len(),
            words == texts(args@),
            "-"@ == seq!['-'],
            first_operand(words.subrange(i as int, words.len() as int)) == first_operand(words),
        decreases args@.len() - i,
    {
        let ghost rest = words.subrange(i as int, words.len() as int);
        assert(rest[0] == args@[i as int]@);
        let option = starts_with(args[i].as_str(), "-");
        proof {
            let arg = args@[i as int]@;
            if option {
                assert(arg.subrange(0, 1)[0] == '-');
            } else if arg.len() > 0 && arg[0] == '-' {
                assert(arg.subrange(0, 1) =~= "-"@);
            }
        }
        if !option {
            return i;
        }
        assert(rest.subrange(1, rest.len() as int) =~= words.subrange(
            i + 1,
            words.len() as int,
        ));
        i = i + 1;
    }
    assert(words.subrange(i as int, words.len() as int).len() == 0);
    i
}

/// Finds the name of the server behind a command. `given`: the name that the
/// environment gives it, if it does.
pub fn infer_mcp_name(given: Option<&str>, cmd: &str, args: &[String]) -> (name: String)
    ensures
        name@ == server_name(
            match given {
                Some(name) => Some(name@),
                None => None,
            },
            cmd@,
            texts(args@),
        ),
{
    if let Some(name) = given {
        return sanitize_name(name);
    }
    let npx = text_eq(cmd, "npx");
    if npx {
        let i = find_operand(args);
        if i < args.len() {
            let name = package_name(args[i].as_str());
            return sanitize_name(name.as_str());
        }
    }
    if (text_eq(cmd, "python3") || text_eq(cmd, "python")) && args.len() > 0 {
        assert(texts(args@)[0] == args@[0]@);
        if let Some(name) = stem_of_path(args[0].as_str()) {
            return sanitize_name(name.as_str());
        }
    }
    if ends_with(cmd, ".sh") {
        if let Some(name) = stem_of_path(cmd) {
            return sanitize_name(name.as_str());
        }
    }
    sanitize_name(cmd)
}

/// A text in lower case by Unicode.
pub uninterp spec fn lowercased(s: Seq<char>) -> Seq<char>;

/// An ASCII character in lower case.
pub open spec fn ascii_lower(c: char) -> char {
    if 'A' <= c <= 'Z' {
        ((c as u32) + 32) as char
    } else {
        c
    }
}

/// Whether a text holds ASCII characters only.
pub open spec fn is_ascii_text(s: Seq<char>) -> bool {
    forall|i: int| 0 <= i < s.len() ==> (#[trigger] s[i] as u32) < 128
}

/// A text in lower case: letter by letter where it is ASCII, else by Unicode.
pub open spec fn in_lower_case(s: Seq<char>) -> Seq<char> {
    if is_ascii_text(s) {
        Seq::new(s.len(), |i: int| ascii_lower(s[i]))
    } else {
        lowercased(s)
    }
}

/// `str::to_lowercase`: the text in lower case by Unicode. A text of ASCII characters
/// has each of its capital letters made small.
#[verifier::external_body]
fn to_lowercase(s: &str) -> (t: String)
    ensures
        t@ == lowercased(s@),
        is_ascii_text(s@) ==> t@ == Seq::new(
            s@.len(),
            |i: int| ascii_lower(s@[i]),
        ),
{
    s.to_lowercase()
}

/// The log level that a text in lower case asks for.
pub open spec fn level(lower: Seq<char>) -> Seq<char> {
    if lower == "2"@ || lower == "warn"@ {
        "warn"@
    } else if lower == "3"@ || lower == "debug"@ {
        "debug"@
    } else {
        "info"@
    }
}

/// The log level that a text in lower case asks for.
pub fn level_for(lower: &str) -> (l: &'static str)
    ensures
        l@ == level(lower@),
{
    if text_eq(lower, "2") || text_eq(lower, "warn") {
        "warn"
    } else if text_eq(lower, "3") || text_eq(lower, "debug") {
        "debug"
    } else {
        "info"
    }
}

/// The log level that a setting asks for: `1` or `info`, `2` or `warn`, `3` or
/// `debug`, in any case; `info` for anything else.
pub fn log_level(setting: &str) -> (l: &'static str)
    ensures
        l@ == level(in_lower_case(setting@)),
{
    let lower = to_lowercase(setting);
    level_for(lower.as_str())
}

/// The log file of a command.
pub open spec fn log_file(
    given: Option<Seq<char>>,
    cmd: Seq<char>,
    args: Seq<Seq<char>>,
) -> Seq<char> {
    server_name(given, cmd, args) + ".log"@
}

/// The name of the log file of a command: the name of the server behind it, which the
/// environment gives or which is inferred.
pub fn log_file_name(given: Option<&str>, cmd: &str, args: &[String]) -> (name: String)
    ensures
        name@ == log_file(
            match given {
                Some(name) => Some(name@),
                None => None,
            },
            cmd@,
            texts(args@),
        ),
{
    let name = infer_mcp_name(given, cmd, args);
    join(name.as_str(), ".log")
}

/// The directory for logs and sockets under a runtime directory.
pub fn runtime_subdir(runtime_dir: &str) -> (dir: String)
    ensures
        dir@ == runtime_dir@ + "/mcp-wrapper"@,
{
    join(runtime_dir, "/mcp-wrapper")
}

/// The log directory: the one under the runtime directory where it could be made,
/// else the directory for temporary files, else `/tmp`.
pub fn log_dir(made: Option<String>, temporary: Option<String>) -> (dir: String)
    ensures
        dir@ == match made {
            Some(dir) => dir@,
            None => match temporary {
                Some(dir) => dir@,
                None => "/tmp"@,
            },
        },
{
    match made {
        Some(dir) => dir,
        None => match temporary {
            Some(dir) => dir,
            None => "/tmp".to_owned(),
        },
    }
}

/// What is logged, and where to.
#[derive(Debug)]
pub struct TracingPlan {
    pub file_name: String,
    pub filter: String,
}

/// Decides whether and what to log: nothing without a setting.
pub fn tracing_plan(
    setting: Option<&str>,
    given: Option<&str>,
    cmd: &str,
    args: &[String],
) -> (plan: Option<TracingPlan>)
    ensures
        match setting {
            None => plan is None,
            Some(setting) => plan matches Some(plan) && plan.filter@ == "mcp_wrapper_rs="@ + level(
                in_lower_case(setting@),
            ) && plan.file_name@ == log_file(
                match given {
                    Some(name) => Some(name@),
                    None => None,
                },
                cmd@,
                texts(args@),
            ),
        },
{
    match setting {
        None => None,
        Some(setting) => Some(
            TracingPlan {
                file_name: log_file_name(given, cmd, args),
                filter: join("mcp_wrapper_rs=", log_level(setting)),
            },
        ),
    }
}

/// The identity of a command has eight characters, each a hexadecimal digit in lower
/// case.
pub proof fn law_command_hash_is_eight_hex_digits(cmd: Seq<char>, args: Seq<Seq<char>>)
    ensures
        command_hash(cmd, args).len() == 8,
        forall|i: int|
            0 <= i < 8 ==> {
                let c = #[trigger] command_hash(cmd, args)[i];
                '0' <= c <= '9' || 'a' <= c <= 'f'
            },
{
    let value = DefaultHasher::spec_finish(command_writes(cmd, args)) as nat;
    lemma_hex_len(value, 16);
    lemma_hex_digits(value, 16);
    let full = digest(command_writes(cmd, args));
    assert forall|i: int| 0 <= i < 8 implies {
        let c = #[trigger] command_hash(cmd, args)[i];
        '0' <= c <= '9' || 'a' <= c <= 'f'
    } by {
        assert(command_hash(cmd, args)[i] == full[i]);
    }
}

/// A sanitized name stays as it is when it is sanitized again.
pub proof fn law_sanitizing_twice_changes_nothing(name: Seq<char>)
    ensures
        sanitized(sanitized(name)) == sanitized(name),
{
    assert(sanitized(sanitized(name)) =~= sanitized(name));
}

// ── What the names are for ──────────────────────────────────────────

/// What is hashed tells commands apart: different names, numbers of arguments or
/// arguments feed the hasher differently.
pub proof fn law_hashed_commands_are_told_apart(
    cmd: Seq<char>,
    args: Seq<Seq<char>>,
    other: Seq<char>,
    others: Seq<Seq<char>>,
)
    requires
        args.len() <= u64::MAX,
        others.len() <= u64::MAX,
        command_writes(cmd, args) == command_writes(other, others),
    ensures
        cmd == other,
        args == others,
{
    let a = command_writes(cmd, args);
    let b = command_writes(other, others);
    assert(a[0] == crate::fingerprint::text_writes(cmd)[0]);
    assert(b[0] == crate::fingerprint::text_writes(other)[0]);
    crate::fingerprint::lemma_encoding_tells_apart(cmd, other);
    assert(a[2] == count_writes(args.len())[0]);
    assert(b[2] == count_writes(others.len())[0]);
    assert(count_writes(args.len()) =~= count_writes(others.len()));
    crate::fingerprint::lemma_counts_are_told_apart(args.len(), others.len());
    assert(a.subrange(3, a.len() as int) =~= texts_writes(args));
    assert(b.subrange(3, b.len() as int) =~= texts_writes(others));
    crate::fingerprint::law_hashed_texts_are_told_apart(args, others);
}

/// Two commands have the same identity exactly where the upper halves of their hashes
/// are the same.
pub proof fn law_identity_is_the_upper_half_of_the_hash(
    cmd: Seq<char>,
    args: Seq<Seq<char>>,
    other: Seq<char>,
    others: Seq<Seq<char>>,
)
    ensures
        command_hash(cmd, args) == command_hash(other, others) <==> DefaultHasher::spec_finish(
            command_writes(cmd, args),
        ) / 0x1_0000_0000 == DefaultHasher::spec_finish(command_writes(other, others))
            / 0x1_0000_0000,
{
    let m = DefaultHasher::spec_finish(command_writes(cmd, args)) as nat;
    let n = DefaultHasher::spec_finish(command_writes(other, others)) as nat;
    crate::text::lemma_hex_front(m, 8, 8);
    crate::text::lemma_hex_front(n, 8, 8);
    reveal_with_fuel(crate::text::power_of_16, 9);
    assert(crate::text::power_of_16(8) == 0x1_0000_0000);
    if command_hash(cmd, args) == command_hash(other, others) {
        crate::text::lemma_hex_tells_apart(m / 0x1_0000_0000, n / 0x1_0000_0000, 8);
    }
}

/// A name for a file is as long as the name that it is made of; letters, digits, `-` and
/// `_` stay, and every other ASCII character becomes `_`.
pub proof fn law_names_are_made_fit_for_files(name: &str, s: String, i: int)
    requires
        call_ensures(sanitize_name, (name,), s),
        0 <= i < name@.len(),
        (name@[i] as u32) < 128,
    ensures
        s@.len() == name@.len(),
        ({
            let c = name@[i];
            if 'a' <= c <= 'z' || 'A' <= c <= 'Z' || '0' <= c <= '9' || c == '-' || c == '_' {
                s@[i] == c
            } else {
                s@[i] == '_'
            }
        }),
{
}

/// A name that the environment gives is used, made fit for a file; else the name is
/// inferred from the command.
pub proof fn law_given_name_is_used(
    given: &str,
    cmd: &str,
    args: &[String],
    by_given: String,
    inferred: String,
)
    requires
        call_ensures(infer_mcp_name, (Some(given), cmd, args), by_given),
        call_ensures(infer_mcp_name, (None, cmd, args), inferred),
    ensures
        by_given@ == sanitized(given@),
        inferred@ == sanitized(inferred_name(cmd@, texts(args@))),
{
}

/// The name behind `npx` is the package that it runs: the first argument that is no
/// option, without the scope before it and the version behind it.
pub proof fn law_npx_runs_a_package(
    options: Seq<Seq<char>>,
    scope: Option<Seq<char>>,
    package: Seq<char>,
    version: Option<Seq<char>>,
    rest: Seq<Seq<char>>,
)
    requires
        forall|i: int|
            0 <= i < options.len() ==> (#[trigger] options[i]).len() > 0 && options[i][0] == '-',
        !package.contains('/') && !package.contains('@') && package.len() > 0,
        scope is None ==> package[0] != '-',
        scope matches Some(scope) ==> scope.len() > 0 && scope[0] != '-',
        version matches Some(version) ==> !version.contains('/'),
    ensures
        ({
            let front = match scope {
                Some(scope) => scope.push('/'),
                None => Seq::empty(),
            };
            let back = match version {
                Some(version) => seq!['@'] + version,
                None => Seq::empty(),
            };
            inferred_name("npx"@, options + seq![front + package + back] + rest) == package
        }),
{
    let front = match scope {
        Some(scope) => scope.push('/'),
        None => Seq::empty(),
    };
    let back = match version {
        Some(version) => seq!['@'] + version,
        None => Seq::empty(),
    };
    let arg = front + package + back;
    lemma_first_operand(options, arg, rest);
    assert(arg[0] != '-') by {
        if scope is Some {
            assert(arg[0] == scope->0[0]);
        } else {
            assert(arg[0] == package[0]);
        }
    }
    assert forall|k: int| front.len() <= k < arg.len() implies arg[k] != '/' by {
        if k < front.len() + package.len() {
            assert(arg[k] == package[k - front.len()]);
        } else if k > front.len() + package.len() {
            assert(arg[k] == version->0[k - front.len() - package.len() - 1]);
        }
    }
    lemma_after_last(arg, '/', front.len() as int);
    let name = arg.subrange(front.len() as int, arg.len() as int);
    assert forall|k: int| 0 <= k < package.len() implies name[k] != '@' by {
        assert(name[k] == package[k]);
    }
    lemma_before_first(name, '@', package.len() as int);
    assert(name.subrange(0, package.len() as int) =~= package);
}

proof fn lemma_first_operand(options: Seq<Seq<char>>, arg: Seq<char>, rest: Seq<Seq<char>>)
    requires
        forall|i: int|
            0 <= i < options.len() ==> (#[trigger] options[i]).len() > 0 && options[i][0] == '-',
        arg.len() > 0 ==> arg[0] != '-',
    ensures
        first_operand(options + seq![arg] + rest) == Some(arg),
    decreases options.len(),
{
    let all = options + seq![arg] + rest;
    if options.len() > 0 {
        assert(all[0] == options[0]);
        assert(all.subrange(1, all.len() as int) =~= options.drop_first() + seq![arg] + rest);
        lemma_first_operand(options.drop_first(), arg, rest);
    } else {
        assert(all[0] == arg);
    }
}

/// The name of a file without its directories and its extension.
proof fn lemma_file_stem(dir: Seq<char>, name: Seq<char>, extension: Seq<char>)
    requires
        dir.len() == 0 || dir.last() == '/',
        name.len() > 0,
        !name.contains('/'),
        !extension.contains('/'),
        !extension.contains('.'),
        extension.len() > 0,
    ensures
        file_stem(dir + name + seq!['.'] + extension) == Some(name),
{
    let path = dir + name + seq!['.'] + extension;
    let n = dir.len() as int;
    assert forall|k: int| n <= k < path.len() implies path[k] != '/' by {
        if k < n + name.len() {
            assert(path[k] == name[k - n]);
        } else if k > n + name.len() {
            assert(path[k] == extension[k - n - name.len() - 1]);
        }
    }
    lemma_after_last(path, '/', n);
    let file = path.subrange(n, path.len() as int);
    assert(file.len() >= 3);
    assert(file_name(path) == Some(file));
    let dot = n + name.len() as int + 1;
    assert forall|k: int| dot <= k < path.len() implies path[k] != '.' by {
        assert(path[k] == extension[k - dot]);
    }
    lemma_extension(path, n, path.len() as int, dot);
    assert(path.subrange(n, dot - 1) =~= name);
}

/// The name behind Python is the script that it runs, without its directory and its
/// extension; the name behind a shell script is that script, likewise.
pub proof fn law_scripts_are_named_by_their_files(
    python: Seq<char>,
    dir: Seq<char>,
    name: Seq<char>,
    extension: Seq<char>,
    rest: Seq<Seq<char>>,
)
    requires
        python == "python"@ || python == "python3"@,
        dir.len() == 0 || dir.last() == '/',
        name.len() > 0,
        !name.contains('/'),
        !extension.contains('/'),
        !extension.contains('.'),
        extension.len() > 0,
    ensures
        inferred_name(python, seq![dir + name + seq!['.'] + extension] + rest) == name,
        inferred_name(dir + name + ".sh"@, rest) == name,
{
    reveal_strlit("python");
    reveal_strlit("python3");
    reveal_strlit("npx");
    reveal_strlit(".sh");
    assert("python"@.len() == 6);
    assert("python3"@.len() == 7);
    assert("npx"@.len() == 3);
    assert(".sh"@.len() == 3);
    assert("npx"@[0] != ".sh"@[0]);
    lemma_file_stem(dir, name, extension);
    let args = seq![dir + name + seq!['.'] + extension] + rest;
    assert(args[0] == dir + name + seq!['.'] + extension);
    let sh = seq!['s', 'h'];
    assert(".sh"@ =~= seq!['.'] + sh);
    lemma_file_stem(dir, name, sh);
    let script = dir + name + ".sh"@;
    assert(script =~= dir + name + seq!['.'] + sh);
    assert(script.subrange(script.len() - 3, script.len() as int) =~= ".sh"@);
    assert(script.last() == 'h');
    assert("npx"@.last() == 'x');
    assert("python"@.last() == 'n');
    assert("python3"@.last() == '3');
}

/// Any other command is its own name.
pub proof fn law_other_commands_are_their_own_names(cmd: Seq<char>, args: Seq<Seq<char>>)
    requires
        cmd != "npx"@ && cmd != "python"@ && cmd != "python3"@,
        !".sh"@.is_suffix_of(cmd),
    ensures
        inferred_name(cmd, args) == cmd,
{
}

/// A log file has the name of the server and ends in `.log`.
pub proof fn law_log_file_is_named_by_the_server(
    given: Option<&str>,
    cmd: &str,
    args: &[String],
    file: String,
    name: String,
)
    requires
        call_ensures(log_file_name, (given, cmd, args), file),
        call_ensures(infer_mcp_name, (given, cmd, args), name),
    ensures
        file@ == name@ + ".log"@,
{
}

/// A log level is one of three: `warn` and `debug` are asked for by name or number, in
/// small or capital letters, and everything else is `info`.
pub proof fn law_log_levels(setting: &str, l: &'static str, wanted: Seq<char>)
    requires
        call_ensures(log_level, (setting,), l),
        wanted == "2"@ || wanted == "warn"@ || wanted == "3"@ || wanted == "debug"@ || wanted
            == "1"@ || wanted == "info"@,
        setting@.len() == wanted.len(),
        forall|i: int|
            0 <= i < wanted.len() ==> (#[trigger] setting@[i] as u32) < 128 && ascii_lower(
                setting@[i],
            ) == wanted[i],
    ensures
        wanted == "2"@ || wanted == "warn"@ ==> l@ == "warn"@,
        wanted == "3"@ || wanted == "debug"@ ==> l@ == "debug"@,
        wanted == "1"@ || wanted == "info"@ ==> l@ == "info"@,
{
    reveal_strlit("1");
    reveal_strlit("2");
    reveal_strlit("3");
    reveal_strlit("warn");
    reveal_strlit("info");
    reveal_strlit("debug");
    assert("1"@.len() == 1);
    assert("2"@.len() == 1);
    assert("3"@.len() == 1);
    assert("warn"@.len() == 4);
    assert("info"@.len() == 4);
    assert("debug"@.len() == 5);
    assert("1"@[0] != "2"@[0]);
    assert("1"@[0] != "3"@[0]);
    assert("2"@[0] != "3"@[0]);
    assert("warn"@[0] != "info"@[0]);
    assert(in_lower_case(setting@) =~= wanted);
}

/// The level is never anything but one of the three.
pub proof fn law_there_are_three_log_levels(setting: &str, l: &'static str)
    requires
        call_ensures(log_level, (setting,), l),
    ensures
        l@ == "warn"@ || l@ == "debug"@ || l@ == "info"@,
        l@ == "warn"@ ==> in_lower_case(setting@) == "2"@ || in_lower_case(setting@) == "warn"@,
        l@ == "debug"@ ==> in_lower_case(setting@) == "3"@ || in_lower_case(setting@) == "debug"@,
{
    reveal_strlit("warn");
    reveal_strlit("info");
    reveal_strlit("debug");
    assert("warn"@.len() == 4);
    assert("info"@.len() == 4);
    assert("debug"@.len() == 5);
    assert("warn"@[0] != "info"@[0]);
}

/// Without a setting nothing is logged; with one, what is logged and where to follow
/// from it.
pub proof fn law_logging_needs_a_setting(
    setting: Option<&str>,
    given: Option<&str>,
    cmd: &str,
    args: &[String],
    plan: Option<TracingPlan>,
    l: &'static str,
    file: String,
)
    requires
        call_ensures(tracing_plan, (setting, given, cmd, args), plan),
        setting matches Some(text) ==> call_ensures(log_level, (text,), l),
        call_ensures(log_file_name, (given, cmd, args), file),
    ensures
        plan is Some <==> setting is Some,
        (plan matches Some(plan) ==> plan.filter@ == "mcp_wrapper_rs="@ + l@ && plan.file_name@
            == file@),
{
}

/// Logs go to the directory that was made, else to the one for temporary files, else to
/// `/tmp`; under a runtime directory there is one of their own.
pub proof fn law_directory_of_logs(
    made: Option<String>,
    temporary: Option<String>,
    dir: String,
    runtime: &str,
    own: String,
)
    requires
        call_ensures(log_dir, (made, temporary), dir),
        call_ensures(runtime_subdir, (runtime,), own),
    ensures
        (made matches Some(m) ==> dir@ == m@),
        made is None ==> (temporary matches Some(t) ==> dir@ == t@),
        made is None && temporary is None ==> dir@ == "/tmp"@,
        own@ == runtime@ + "/mcp-wrapper"@,
{
}

/// A name for a file has no separator of directories and no dot in it.
pub proof fn law_names_for_files_have_no_separator(name: &str, s: String, i: int)
    requires
        call_ensures(sanitize_name, (name,), s),
        0 <= i < s@.len(),
    ensures
        s@[i] != '/' && s@[i] != '.' && s@[i] != '\\' && s@[i] != ' ' && s@[i] != ':',
{
}

/// The name of a file without its directories and its extension, as it is found in a
/// path; and the level that a text in lower case asks for.
pub proof fn law_stems_and_levels(
    path: &str,
    found: Option<String>,
    dir: Seq<char>,
    name: Seq<char>,
    extension: Seq<char>,
    lower: &str,
    l: &'static str,
    setting: &str,
    same: &'static str,
)
    requires
        call_ensures(stem_of_path, (path,), found),
        path@ == dir + name + seq!['.'] + extension,
        dir.len() == 0 || dir.last() == '/',
        name.len() > 0,
        !name.contains('/'),
        !extension.contains('/'),
        !extension.contains('.'),
        extension.len() > 0,
        call_ensures(level_for, (lower,), l),
        call_ensures(log_level, (setting,), same),
        lower@ == in_lower_case(setting@),
    ensures
        found matches Some(stem) && stem@ == name,
        l@ == same@,
{
    lemma_file_stem(dir, name, extension);
}

} // verus!
