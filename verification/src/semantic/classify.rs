//! What a statement is after.
use crate::personality::{Personality, PersonalityView};
use crate::strings::{begins, contains, has, holds, starts_with, uppercase, uppercase_text};
use crate::text::{chars_of, lemma_views_empty, lemma_views_push, str_eq, views};
use vstd::prelude::*;

verus! {

broadcast use {lemma_views_push, lemma_views_empty};

/// What a statement is after.
#[derive(Clone, Copy, Debug, PartialEq, Eq, Structural)]
pub enum Classification {
    EnvironmentDiscovery,
    DatabaseEnumeration,
    PrincipalEnumeration,
    PermissionEnumeration,
    Configuration,
    XpCmdshell,
    ExternalScripts,
    OleAutomation,
    ExecuteAs,
    LoginManipulation,
    RoleManipulation,
    ClrActivity,
    LinkedServerActivity,
    FilesystemActivity,
    SqlAgentActivity,
    HoneyObjectAccess,
    DatabaseContext,
    Transaction,
    Unknown,
}

impl Classification {
    /// The risks of a kind of statement.
    pub open spec fn tags(self) -> Seq<Seq<char>> {
        match self {
            Classification::XpCmdshell => seq!["os_command_execution"@],
            Classification::ExternalScripts => seq!["external_script_execution"@],
            Classification::OleAutomation => seq!["ole_automation"@],
            Classification::ExecuteAs => seq!["impersonation"@],
            Classification::LoginManipulation => seq!["privilege_manipulation"@],
            Classification::RoleManipulation => seq!["privilege_manipulation"@],
            Classification::ClrActivity => seq!["clr_payload"@],
            Classification::LinkedServerActivity => seq!["lateral_movement"@],
            Classification::FilesystemActivity => seq!["filesystem_access"@],
            Classification::SqlAgentActivity => seq!["persistence"@, "os_command_execution"@],
            Classification::HoneyObjectAccess => seq!["honey_object"@],
            _ => seq![],
        }
    }

    /// The risks of a kind of statement.
    pub fn risk_tags(self) -> (tags: Vec<&'static str>)
        ensures
            views(tags@) == self.tags(),
    {
        let mut tags: Vec<&'static str> = Vec::new();
        match self {
            Classification::XpCmdshell => tags.push("os_command_execution"),
            Classification::ExternalScripts => tags.push("external_script_execution"),
            Classification::OleAutomation => tags.push("ole_automation"),
            Classification::ExecuteAs => tags.push("impersonation"),
            Classification::LoginManipulation => tags.push("privilege_manipulation"),
            Classification::RoleManipulation => tags.push("privilege_manipulation"),
            Classification::ClrActivity => tags.push("clr_payload"),
            Classification::LinkedServerActivity => tags.push("lateral_movement"),
            Classification::FilesystemActivity => tags.push("filesystem_access"),
            Classification::SqlAgentActivity => {
                tags.push("persistence");
                tags.push("os_command_execution");
            },
            Classification::HoneyObjectAccess => tags.push("honey_object"),
            _ => {},
        }
        assert(views(tags@) =~= self.tags());
        tags
    }
}

/// The first honey object from `i` on whose name stands in a statement.
pub open spec fn honey_from(statement: Seq<char>, objects: Seq<Seq<char>>, i: int) -> Option<
    Seq<char>,
>
    decreases objects.len() - i,
{
    if i < 0 || i >= objects.len() {
        None
    } else if holds(statement, uppercase_text(objects[i])) {
        Some(objects[i])
    } else {
        honey_from(statement, objects, i + 1)
    }
}

/// The first honey object whose name stands in a statement.
pub open spec fn honey_in(statement: Seq<char>, objects: Seq<Seq<char>>) -> Option<Seq<char>> {
    honey_from(statement, objects, 0)
}

/// The first honey object whose name stands in a statement.
pub fn honey_object_in<'a>(statement: &str, objects: &'a Vec<String>) -> (object: Option<&'a str>)
    ensures
        crate::text::opt_view(object) == honey_in(statement@, views(objects@)),
{
    let mut i: usize = 0;
    while i < objects.len()
        invariant
            i <= objects@.len(),
            honey_in(statement@, views(objects@)) == honey_from(
                statement@,
                views(objects@),
                i as int,
            ),
        decreases objects.len() - i,
    {
        let name = uppercase(objects[i].as_str());
        if contains(statement, name.as_str()) {
            return Some(objects[i].as_str());
        }
        i += 1;
    }
    None
}

/// Whether a statement starts or runs a program outside the database, or takes code in.
pub open spec fn code_class(n: Seq<char>) -> Option<Classification> {
    if holds(n, "XP_CMDSHELL"@) {
        Some(Classification::XpCmdshell)
    } else if holds(n, "SP_OA"@) || holds(n, "OLE AUTOMATION"@) {
        Some(Classification::OleAutomation)
    } else if holds(n, "SP_EXECUTE_EXTERNAL_SCRIPT"@) || holds(n, "EXTERNAL SCRIPT"@) {
        Some(Classification::ExternalScripts)
    } else if holds(n, "ASSEMBLY"@) || holds(n, "CLR ENABLED"@) {
        Some(Classification::ClrActivity)
    } else {
        None
    }
}

/// Whether a statement reaches out of the database by its own means.
pub open spec fn reach_class(n: Seq<char>) -> Option<Classification> {
    if holds(n, "LINKED_SERVER"@) || holds(n, "SP_LINKEDSERVERS"@) || holds(n, "SYS.SERVERS"@)
        || holds(n, "OPENQUERY"@) || (holds(n, "EXEC ("@) && holds(n, " AT "@)) {
        Some(Classification::LinkedServerActivity)
    } else if (holds(n, "MSDB.DBO.SP_"@) && holds(n, "JOB"@)) || holds(n, "SYSJOBS"@) {
        Some(Classification::SqlAgentActivity)
    } else if holds(n, "BACKUP "@) || holds(n, "RESTORE "@) || holds(n, "BULK INSERT"@) || holds(
        n,
        "OPENROWSET"@,
    ) || holds(n, "XP_FILEEXIST"@) {
        Some(Classification::FilesystemActivity)
    } else {
        None
    }
}

/// Whether a statement changes who may do what.
pub open spec fn power_class(n: Seq<char>) -> Option<Classification> {
    if holds(n, "EXECUTE AS"@) || begins(n, "REVERT"@) {
        Some(Classification::ExecuteAs)
    } else if holds(n, "CREATE LOGIN"@) || holds(n, "ALTER LOGIN"@) || holds(n, "DROP LOGIN"@) {
        Some(Classification::LoginManipulation)
    } else if holds(n, "SP_ADDROLEMEMBER"@) || holds(n, "SERVER ROLE"@) || holds(n, " GRANT "@)
        || begins(n, "GRANT "@) || holds(n, " DENY "@) || holds(n, " REVOKE "@) {
        Some(Classification::RoleManipulation)
    } else if holds(n, "SP_CONFIGURE"@) || n == "RECONFIGURE"@ {
        Some(Classification::Configuration)
    } else {
        None
    }
}

/// What a statement asks for that changes nothing outside its session.
pub open spec fn look_class(n: Seq<char>) -> Classification {
    if holds(n, "SYS.DATABASES"@) || holds(n, "SP_DATABASES"@) {
        Classification::DatabaseEnumeration
    } else if holds(n, "SYS.SERVER_PRINCIPALS"@) || holds(n, "SYS.SQL_LOGINS"@) || holds(
        n,
        "SP_HELPSRVLOGIN"@,
    ) {
        Classification::PrincipalEnumeration
    } else if holds(n, "FN_MY_PERMISSIONS"@) || holds(n, "HAS_PERMS_BY_NAME"@) || holds(
        n,
        "ROLEMEMBER"@,
    ) {
        Classification::PermissionEnumeration
    } else if begins(n, "USE "@) {
        Classification::DatabaseContext
    } else if begins(n, "BEGIN TRAN"@) || begins(n, "COMMIT"@) || begins(n, "ROLLBACK"@) {
        Classification::Transaction
    } else if holds(n, "@@VERSION"@) || holds(n, "@@SERVERNAME"@) || holds(n, "SERVERPROPERTY"@)
        || holds(n, "SYSTEM_USER"@) || holds(n, "SUSER_SNAME"@) || holds(n, "USER_NAME"@) || holds(
        n,
        "DB_NAME"@,
    ) {
        Classification::EnvironmentDiscovery
    } else {
        Classification::Unknown
    }
}

/// What a statement is after, by its words alone. The graver reading comes first.
pub open spec fn class_of(n: Seq<char>) -> Classification {
    match code_class(n) {
        Some(class) => class,
        None => match reach_class(n) {
            Some(class) => class,
            None => match power_class(n) {
                Some(class) => class,
                None => look_class(n),
            },
        },
    }
}

fn code_class_of(n: &Vec<char>) -> (class: Option<Classification>)
    ensures
        class == code_class(n@),
{
    if has(n, "XP_CMDSHELL") {
        Some(Classification::XpCmdshell)
    } else if has(n, "SP_OA") || has(n, "OLE AUTOMATION") {
        Some(Classification::OleAutomation)
    } else if has(n, "SP_EXECUTE_EXTERNAL_SCRIPT") || has(n, "EXTERNAL SCRIPT") {
        Some(Classification::ExternalScripts)
    } else if has(n, "ASSEMBLY") || has(n, "CLR ENABLED") {
        Some(Classification::ClrActivity)
    } else {
        None
    }
}

fn reach_class_of(n: &Vec<char>) -> (class: Option<Classification>)
    ensures
        class == reach_class(n@),
{
    if has(n, "LINKED_SERVER") || has(n, "SP_LINKEDSERVERS") || has(n, "SYS.SERVERS") || has(
        n,
        "OPENQUERY",
    ) || (has(n, "EXEC (") && has(n, " AT ")) {
        Some(Classification::LinkedServerActivity)
    } else if (has(n, "MSDB.DBO.SP_") && has(n, "JOB")) || has(n, "SYSJOBS") {
        Some(Classification::SqlAgentActivity)
    } else if has(n, "BACKUP ") || has(n, "RESTORE ") || has(n, "BULK INSERT") || has(
        n,
        "OPENROWSET",
    ) || has(n, "XP_FILEEXIST") {
        Some(Classification::FilesystemActivity)
    } else {
        None
    }
}

fn power_class_of(text: &str, n: &Vec<char>) -> (class: Option<Classification>)
    requires
        n@ == text@,
    ensures
        class == power_class(n@),
{
    if has(n, "EXECUTE AS") || starts_with(text, "REVERT") {
        Some(Classification::ExecuteAs)
    } else if has(n, "CREATE LOGIN") || has(n, "ALTER LOGIN") || has(n, "DROP LOGIN") {
        Some(Classification::LoginManipulation)
    } else if has(n, "SP_ADDROLEMEMBER") || has(n, "SERVER ROLE") || has(n, " GRANT ")
        || starts_with(text, "GRANT ") || has(n, " DENY ") || has(n, " REVOKE ") {
        Some(Classification::RoleManipulation)
    } else if has(n, "SP_CONFIGURE") || str_eq(text, "RECONFIGURE") {
        Some(Classification::Configuration)
    } else {
        None
    }
}

fn look_class_of(text: &str, n: &Vec<char>) -> (class: Classification)
    requires
        n@ == text@,
    ensures
        class == look_class(n@),
{
    if has(n, "SYS.DATABASES") || has(n, "SP_DATABASES") {
        Classification::DatabaseEnumeration
    } else if has(n, "SYS.SERVER_PRINCIPALS") || has(n, "SYS.SQL_LOGINS") || has(
        n,
        "SP_HELPSRVLOGIN",
    ) {
        Classification::PrincipalEnumeration
    } else if has(n, "FN_MY_PERMISSIONS") || has(n, "HAS_PERMS_BY_NAME") || has(n, "ROLEMEMBER") {
        Classification::PermissionEnumeration
    } else if starts_with(text, "USE ") {
        Classification::DatabaseContext
    } else if starts_with(text, "BEGIN TRAN") || starts_with(text, "COMMIT") || starts_with(
        text,
        "ROLLBACK",
    ) {
        Classification::Transaction
    } else if has(n, "@@VERSION") || has(n, "@@SERVERNAME") || has(n, "SERVERPROPERTY") || has(
        n,
        "SYSTEM_USER",
    ) || has(n, "SUSER_SNAME") || has(n, "USER_NAME") || has(n, "DB_NAME") {
        Classification::EnvironmentDiscovery
    } else {
        Classification::Unknown
    }
}

/// What a normalized statement is after, by its words alone.
pub fn classify_words(normalized: &str) -> (class: Classification)
    ensures
        class == class_of(normalized@),
{
    let n = chars_of(normalized);
    match code_class_of(&n) {
        Some(class) => class,
        None => match reach_class_of(&n) {
            Some(class) => class,
            None => match power_class_of(normalized, &n) {
                Some(class) => class,
                None => look_class_of(normalized, &n),
            },
        },
    }
}

/// What a normalized statement is after. One that names a honey object is after that.
pub open spec fn class_for(normalized: Seq<char>, personality: PersonalityView) -> Classification {
    if honey_in(normalized, personality.honey_objects) is Some {
        Classification::HoneyObjectAccess
    } else {
        class_of(normalized)
    }
}

/// What a normalized statement is after. One that names a honey object is after that.
pub fn classify(normalized: &str, personality: &Personality) -> (class: Classification)
    ensures
        class == class_for(normalized@, personality@),
{
    if honey_object_in(normalized, &personality.honey_objects).is_some() {
        return Classification::HoneyObjectAccess;
    }
    classify_words(normalized)
}

/// A statement that names `xp_cmdshell` anywhere is taken for an attempt to run a command,
/// whatever else it says, unless it names a honey object.
pub proof fn lemma_shell_is_seen(
    before: Seq<char>,
    after: Seq<char>,
    personality: PersonalityView,
)
    ensures
        ({
            let class = class_for(before + "XP_CMDSHELL"@ + after, personality);
            class == Classification::XpCmdshell || class == Classification::HoneyObjectAccess
        }),
{
    let text = before + "XP_CMDSHELL"@ + after;
    let n = before.len() as int;
    assert(text.subrange(n, n + "XP_CMDSHELL"@.len()) =~= "XP_CMDSHELL"@);
    assert(crate::strings::stands_at(text, "XP_CMDSHELL"@, n));
}

} // verus!
