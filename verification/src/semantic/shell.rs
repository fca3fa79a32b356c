//! What commands are answered.
use crate::personality::{Personality, PersonalityView};
use crate::semantic::normalize::{normalize, normalized};
use crate::strings::{
    begins, is_white_space, lowercase, lowercase_text, starts_with, white_space,
};
use crate::text::{
    cat2, cat3, chars_of, lemma_views_empty, lemma_views_push, string_of, str_eq, views,
};
use vstd::prelude::*;

verus! {

broadcast use {lemma_views_push, lemma_views_empty};

/// Where the first character from `i` on stands that is white space, or is none.
pub open spec fn next_space(s: Seq<char>, space: bool, i: int) -> int
    decreases s.len() - i,
{
    if i < 0 || i >= s.len() || white_space(s[i]) == space {
        i
    } else {
        next_space(s, space, i + 1)
    }
}

/// The first word of a command.
pub open spec fn program_of(command: Seq<char>) -> Seq<char> {
    let start = next_space(command, false, 0);
    if start >= command.len() {
        "command"@
    } else {
        command.subrange(start, next_space(command, true, start))
    }
}

fn skip(s: &Vec<char>, space: bool, from: usize) -> (at: usize)
    requires
        from <= s@.len(),
    ensures
        at == next_space(s@, space, from as int),
        from <= at <= s@.len(),
{
    let mut i: usize = from;
    while i < s.len() && is_white_space(s[i]) != space
        invariant
            from <= i <= s@.len(),
            next_space(s@, space, from as int) == next_space(s@, space, i as int),
        decreases s.len() - i,
    {
        i += 1;
    }
    i
}

/// The first word of a command.
pub fn program(command: &str) -> (word: String)
    ensures
        word@ == program_of(command@),
{
    let s = chars_of(command);
    let start: usize = skip(&s, false, 0);
    if start >= s.len() {
        return "command".to_owned();
    }
    let end: usize = skip(&s, true, start);
    string_of(&s.as_slice()[start..end])
}

/// The lines that a command prints. No command is ever run: those that are known have fixed
/// answers, and any other is answered as if there were no such program.
pub open spec fn shell_lines(
    command: Seq<char>,
    plain: Seq<char>,
    account: Seq<char>,
    personality: PersonalityView,
) -> Seq<Seq<char>> {
    if plain == "WHOAMI"@ {
        seq!["nt service\\"@ + account]
    } else if plain == "HOSTNAME"@ {
        seq![personality.server_name]
    } else if begins(plain, "IPCONFIG"@) {
        seq![
            "Windows IP Configuration"@,
            ""@,
            "   IPv4 Address. . . . . . . . . . . : 10.20.30.15"@,
        ]
    } else if begins(plain, "SYSTEMINFO"@) {
        seq![
            "Host Name:                 "@ + personality.server_name,
            "OS Name:                   "@ + personality.os_version,
        ]
    } else if plain == "DIR"@ || begins(plain, "DIR "@) {
        seq![
            " Volume in drive C is OS"@,
            " Directory of C:\\Program Files\\Microsoft SQL Server"@,
            "08/12/2026  03:41 AM    <DIR>          MSSQL16.MSSQLSERVER"@,
        ]
    } else if command.len() == 0 {
        seq![]
    } else {
        seq![
            "'"@ + program_of(command)
                + "' is not recognized as an internal or external command, operable program or batch file."@,
        ]
    }
}

/// The lines that a command prints, given its normalized form and the account in lower case.
pub fn shell_output(command: &str, plain: &str, account: &str, personality: &Personality) -> (lines:
    Vec<String>)
    ensures
        views(lines@) == shell_lines(command@, plain@, account@, personality@),
{
    broadcast use vstd::utf8::encode_utf8_decode_utf8;

    let mut lines: Vec<String> = Vec::new();
    if str_eq(plain, "WHOAMI") {
        lines.push(cat2("nt service\\", account));
    } else if str_eq(plain, "HOSTNAME") {
        lines.push(personality.server_name.clone());
    } else if starts_with(plain, "IPCONFIG") {
        lines.push("Windows IP Configuration".to_owned());
        lines.push("".to_owned());
        lines.push("   IPv4 Address. . . . . . . . . . . : 10.20.30.15".to_owned());
    } else if starts_with(plain, "SYSTEMINFO") {
        lines.push(cat2("Host Name:                 ", personality.server_name.as_str()));
        lines.push(cat2("OS Name:                   ", personality.os_version.as_str()));
    } else if str_eq(plain, "DIR") || starts_with(plain, "DIR ") {
        lines.push(" Volume in drive C is OS".to_owned());
        lines.push(" Directory of C:\\Program Files\\Microsoft SQL Server".to_owned());
        lines.push("08/12/2026  03:41 AM    <DIR>          MSSQL16.MSSQLSERVER".to_owned());
    } else if !command.is_empty() {
        lines.push(
            cat3(
                "'",
                program(command).as_str(),
                "' is not recognized as an internal or external command, operable program or batch file.",
            ),
        );
    }
    assert(views(lines@) =~= shell_lines(command@, plain@, account@, personality@));
    lines
}

/// What a command prints.
pub open spec fn printed(command: Seq<char>, personality: PersonalityView) -> Seq<Seq<char>> {
    shell_lines(
        command,
        normalized(command),
        lowercase_text(personality.instance_name),
        personality,
    )
}

/// What a command prints.
pub fn print(command: &str, personality: &Personality) -> (lines: Vec<String>)
    ensures
        views(lines@) == printed(command@, personality@),
{
    let plain = normalize(command);
    let account = lowercase(personality.instance_name.as_str());
    shell_output(command, plain.as_str(), account.as_str(), personality)
}

} // verus!
