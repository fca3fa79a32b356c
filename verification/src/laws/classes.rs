//! What a statement is taken for.
use crate::personality::PersonalityView;
use crate::semantic::classify::{class_for, class_of, honey_from, honey_in, Classification};
use crate::strings::{begins, holds, uppercase_text};
use vstd::prelude::*;

verus! {

/// Whether a statement holds one of the words.
pub open spec fn holds_any(n: Seq<char>, words: Seq<Seq<char>>) -> bool {
    exists|i: int| 0 <= i < words.len() && holds(n, #[trigger] words[i])
}

/// The words by which a statement of a kind is known wherever they stand in it.
pub open spec fn signs(class: Classification) -> Seq<Seq<char>> {
    match class {
        Classification::XpCmdshell => seq!["XP_CMDSHELL"@],
        Classification::OleAutomation => seq!["SP_OA"@, "OLE AUTOMATION"@],
        Classification::ExternalScripts => seq!["SP_EXECUTE_EXTERNAL_SCRIPT"@, "EXTERNAL SCRIPT"@],
        Classification::ClrActivity => seq!["ASSEMBLY"@, "CLR ENABLED"@],
        Classification::LinkedServerActivity => seq![
            "LINKED_SERVER"@,
            "SP_LINKEDSERVERS"@,
            "SYS.SERVERS"@,
            "OPENQUERY"@,
        ],
        Classification::SqlAgentActivity => seq!["SYSJOBS"@],
        Classification::FilesystemActivity => seq![
            "BACKUP "@,
            "RESTORE "@,
            "BULK INSERT"@,
            "OPENROWSET"@,
            "XP_FILEEXIST"@,
        ],
        Classification::ExecuteAs => seq!["EXECUTE AS"@],
        Classification::LoginManipulation => seq![
            "CREATE LOGIN"@,
            "ALTER LOGIN"@,
            "DROP LOGIN"@,
        ],
        Classification::RoleManipulation => seq![
            "SP_ADDROLEMEMBER"@,
            "SERVER ROLE"@,
            " GRANT "@,
            " DENY "@,
            " REVOKE "@,
        ],
        Classification::Configuration => seq!["SP_CONFIGURE"@],
        Classification::DatabaseEnumeration => seq!["SYS.DATABASES"@, "SP_DATABASES"@],
        Classification::PrincipalEnumeration => seq![
            "SYS.SERVER_PRINCIPALS"@,
            "SYS.SQL_LOGINS"@,
            "SP_HELPSRVLOGIN"@,
        ],
        Classification::PermissionEnumeration => seq![
            "FN_MY_PERMISSIONS"@,
            "HAS_PERMS_BY_NAME"@,
            "ROLEMEMBER"@,
        ],
        Classification::EnvironmentDiscovery => seq![
            "@@VERSION"@,
            "@@SERVERNAME"@,
            "SERVERPROPERTY"@,
            "SYSTEM_USER"@,
            "SUSER_SNAME"@,
            "USER_NAME"@,
            "DB_NAME"@,
        ],
        _ => seq![],
    }
}

/// Whether a statement shows itself to be of a kind in another way than by one word.
pub open spec fn shows_otherwise(n: Seq<char>, class: Classification) -> bool {
    match class {
        Classification::LinkedServerActivity => holds(n, "EXEC ("@) && holds(n, " AT "@),
        Classification::SqlAgentActivity => holds(n, "MSDB.DBO.SP_"@) && holds(n, "JOB"@),
        Classification::ExecuteAs => begins(n, "REVERT"@),
        Classification::RoleManipulation => begins(n, "GRANT "@),
        Classification::Configuration => n == "RECONFIGURE"@,
        Classification::DatabaseContext => begins(n, "USE "@),
        Classification::Transaction => begins(n, "BEGIN TRAN"@) || begins(n, "COMMIT"@) || begins(
            n,
            "ROLLBACK"@,
        ),
        _ => false,
    }
}

/// Whether a statement shows itself to be of a kind.
pub open spec fn shows(n: Seq<char>, class: Classification) -> bool {
    holds_any(n, signs(class)) || shows_otherwise(n, class)
}

/// How grave a kind is: what runs code comes before what reaches out, that before what changes
/// rights and settings, and that before what only looks.
pub open spec fn gravity(class: Classification) -> int {
    match class {
        Classification::HoneyObjectAccess => 18,
        Classification::XpCmdshell => 17,
        Classification::OleAutomation => 16,
        Classification::ExternalScripts => 15,
        Classification::ClrActivity => 14,
        Classification::LinkedServerActivity => 13,
        Classification::SqlAgentActivity => 12,
        Classification::FilesystemActivity => 11,
        Classification::ExecuteAs => 10,
        Classification::LoginManipulation => 9,
        Classification::RoleManipulation => 8,
        Classification::Configuration => 7,
        Classification::DatabaseEnumeration => 6,
        Classification::PrincipalEnumeration => 5,
        Classification::PermissionEnumeration => 4,
        Classification::DatabaseContext => 3,
        Classification::Transaction => 2,
        Classification::EnvironmentDiscovery => 1,
        Classification::Unknown => 0,
    }
}

proof fn lemma_any(n: Seq<char>, class: Classification)
    ensures
        ({
            let s = signs(class);
            &&& s.len() <= 7
            &&& holds_any(n, s) <==> (s.len() > 0 && holds(n, s[0])) || (s.len() > 1 && holds(
                n,
                s[1],
            )) || (s.len() > 2 && holds(n, s[2])) || (s.len() > 3 && holds(n, s[3])) || (s.len()
                > 4 && holds(n, s[4])) || (s.len() > 5 && holds(n, s[5])) || (s.len() > 6 && holds(
                n,
                s[6],
            ))
        }),
{
    let s = signs(class);
    if holds_any(n, s) {
        let i = choose|i: int| 0 <= i < s.len() && holds(n, #[trigger] s[i]);
        assert(i == 0 || i == 1 || i == 2 || i == 3 || i == 4 || i == 5 || i == 6);
    }
}

/// A statement is taken for the gravest kind that it shows itself to be of: it shows itself to
/// be of that kind, and of none that is graver. One that shows no kind is unknown.
#[verifier::rlimit(60)]
#[verifier::spinoff_prover]
pub proof fn lemma_gravest_kind_decides(n: Seq<char>, class: Classification)
    ensures
        class_of(n) != Classification::Unknown ==> shows(n, class_of(n)),
        shows(n, class) ==> gravity(class) <= gravity(class_of(n)),
        class_of(n) != Classification::HoneyObjectAccess,
{
    lemma_any(n, Classification::XpCmdshell);
    lemma_any(n, Classification::OleAutomation);
    lemma_any(n, Classification::ExternalScripts);
    lemma_any(n, Classification::ClrActivity);
    lemma_any(n, Classification::LinkedServerActivity);
    lemma_any(n, Classification::SqlAgentActivity);
    lemma_any(n, Classification::FilesystemActivity);
    lemma_any(n, Classification::ExecuteAs);
    lemma_any(n, Classification::LoginManipulation);
    lemma_any(n, Classification::RoleManipulation);
    lemma_any(n, Classification::Configuration);
    lemma_any(n, Classification::DatabaseEnumeration);
    lemma_any(n, Classification::PrincipalEnumeration);
    lemma_any(n, Classification::PermissionEnumeration);
    lemma_any(n, Classification::EnvironmentDiscovery);
    lemma_any(n, class);
}

proof fn lemma_honey_from(n: Seq<char>, objects: Seq<Seq<char>>, i: int)
    requires
        0 <= i,
    ensures
        match honey_from(n, objects, i) {
            None => forall|k: int|
                i <= k < objects.len() ==> !holds(n, uppercase_text(#[trigger] objects[k])),
            Some(found) => exists|k: int|
                i <= k < objects.len() && #[trigger] objects[k] == found && holds(
                    n,
                    uppercase_text(found),
                ),
        },
    decreases objects.len() - i,
{
    if i < objects.len() {
        lemma_honey_from(n, objects, i + 1);
        if holds(n, uppercase_text(objects[i])) {
            assert(objects[i] == honey_from(n, objects, i)->Some_0);
        }
    }
}

/// A statement that names one of the objects laid out for intruders, in whatever case the
/// object is listed, is taken for that before anything else; one that names none is taken for
/// what it shows.
pub proof fn lemma_honey_comes_first(n: Seq<char>, personality: PersonalityView)
    ensures
        class_for(n, personality) == Classification::HoneyObjectAccess <==> exists|k: int|
            0 <= k < personality.honey_objects.len() && holds(
                n,
                uppercase_text(#[trigger] personality.honey_objects[k]),
            ),
        honey_in(n, personality.honey_objects) is Some ==> personality.honey_objects.contains(
            honey_in(n, personality.honey_objects)->Some_0,
        ) && holds(n, uppercase_text(honey_in(n, personality.honey_objects)->Some_0)),
        class_for(n, personality) != Classification::HoneyObjectAccess ==> class_for(n, personality)
            == class_of(n),
{
    lemma_honey_from(n, personality.honey_objects, 0);
    lemma_gravest_kind_decides(n, Classification::Unknown);
    let objects = personality.honey_objects;
    if honey_in(n, objects) is Some {
        let found = honey_in(n, objects)->Some_0;
        let k = choose|k: int|
            0 <= k < objects.len() && #[trigger] objects[k] == found && holds(
                n,
                uppercase_text(found),
            );
        assert(holds(n, uppercase_text(objects[k])));
    }
}

/// What runs code, reaches out, changes rights or touches what was laid out carries a risk;
/// what only looks, moves or sets does not. Only what can run commands of the machine is told
/// as such.
pub proof fn lemma_grave_kinds_carry_risks(class: Classification)
    ensures
        class.tags().len() > 0 <==> gravity(class) >= 8,
        class.tags().contains("os_command_execution"@) <==> class == Classification::XpCmdshell
            || class == Classification::SqlAgentActivity,
        class.tags().contains("honey_object"@) <==> class == Classification::HoneyObjectAccess,
        class.tags().contains("privilege_manipulation"@) <==> class
            == Classification::LoginManipulation || class == Classification::RoleManipulation,
        class.tags().contains("clr_payload"@) <==> class == Classification::ClrActivity,
        class.tags().contains("lateral_movement"@) <==> class
            == Classification::LinkedServerActivity,
        class.tags().contains("filesystem_access"@) <==> class
            == Classification::FilesystemActivity,
        class.tags().contains("impersonation"@) <==> class == Classification::ExecuteAs,
        class.tags().contains("persistence"@) <==> class == Classification::SqlAgentActivity,
        class.tags().contains("ole_automation"@) <==> class == Classification::OleAutomation,
        class.tags().contains("external_script_execution"@) <==> class
            == Classification::ExternalScripts,
{
    reveal_strlit("os_command_execution");
    reveal_strlit("external_script_execution");
    reveal_strlit("ole_automation");
    reveal_strlit("impersonation");
    reveal_strlit("privilege_manipulation");
    reveal_strlit("clr_payload");
    reveal_strlit("lateral_movement");
    reveal_strlit("filesystem_access");
    reveal_strlit("persistence");
    reveal_strlit("honey_object");
    let tags = class.tags();
    if tags.len() > 0 {
        assert(tags.contains(tags[0]));
    }
    if tags.len() > 1 {
        assert(tags.contains(tags[1]));
    }
    assert("os_command_execution"@.len() == 20 && "external_script_execution"@.len() == 25
        && "ole_automation"@.len() == 14 && "impersonation"@.len() == 13
        && "privilege_manipulation"@.len() == 22 && "clr_payload"@.len() == 11
        && "lateral_movement"@.len() == 16 && "filesystem_access"@.len() == 17
        && "persistence"@.len() == 11 && "honey_object"@.len() == 12);
    assert("clr_payload"@[0] == 'c' && "persistence"@[0] == 'p');
}

} // verus!
