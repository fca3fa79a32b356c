//! What questions about the server are answered.
use crate::personality::{DefinitionView, Personality, PersonalityView};
use crate::semantic::outcome::{list_of, list_table, pair_table, pairs_of};
use crate::session::{SessionState, SessionView};
use crate::strings::{has, holds, ordered, sort_unique};
use crate::tds::tokens::{single_cell, ResultSet, ResultSetView};
use crate::text::{lemma_views_empty, lemma_views_push, opt_view, views};
use vstd::prelude::*;

verus! {

broadcast use {lemma_views_push, lemma_views_empty};

/// The value of a server property.
pub open spec fn property_of(n: Seq<char>, personality: PersonalityView) -> Seq<char> {
    if holds(n, "PRODUCTVERSION"@) {
        personality.product_version
    } else if holds(n, "PRODUCTLEVEL"@) {
        personality.product_level
    } else if holds(n, "EDITION"@) {
        personality.edition
    } else if holds(n, "MACHINENAME"@) || holds(n, "SERVERNAME"@) {
        personality.server_name
    } else if holds(n, "INSTANCENAME"@) {
        personality.instance_name
    } else {
        personality.product_version
    }
}

fn property<'a>(n: &Vec<char>, personality: &'a Personality) -> (value: &'a str)
    ensures
        value@ == property_of(n@, personality@),
{
    if has(n, "PRODUCTVERSION") {
        personality.product_version.as_str()
    } else if has(n, "PRODUCTLEVEL") {
        personality.product_level.as_str()
    } else if has(n, "EDITION") {
        personality.edition.as_str()
    } else if has(n, "MACHINENAME") || has(n, "SERVERNAME") {
        personality.server_name.as_str()
    } else if has(n, "INSTANCENAME") {
        personality.instance_name.as_str()
    } else {
        personality.product_version.as_str()
    }
}

/// The one value that a question is answered with.
pub open spec fn answer_of(n: Seq<char>, session: SessionView, personality: PersonalityView) -> Option<
    Seq<char>,
> {
    if holds(n, "@@VERSION"@) {
        Some(personality.sql_version)
    } else if holds(n, "@@SERVERNAME"@) {
        Some(personality.server_name)
    } else if holds(n, "SERVERPROPERTY"@) {
        Some(property_of(n, personality))
    } else if holds(n, "SYSTEM_USER"@) || holds(n, "SUSER_SNAME"@) {
        Some(session.effective_login)
    } else if holds(n, "USER_NAME"@) {
        Some("dbo"@)
    } else if holds(n, "IS_SRVROLEMEMBER"@) || holds(n, "IS_MEMBER"@) || holds(
        n,
        "HAS_PERMS_BY_NAME"@,
    ) || holds(n, "FN_MY_PERMISSIONS"@) {
        Some("1"@)
    } else if holds(n, "DB_NAME"@) {
        Some(session.current_database)
    } else {
        None
    }
}

fn answer<'a>(n: &Vec<char>, session: &'a SessionState, personality: &'a Personality) -> (value:
    Option<&'a str>)
    ensures
        opt_view(value) == answer_of(n@, session@, personality@),
{
    if has(n, "@@VERSION") {
        Some(personality.sql_version.as_str())
    } else if has(n, "@@SERVERNAME") {
        Some(personality.server_name.as_str())
    } else if has(n, "SERVERPROPERTY") {
        Some(property(n, personality))
    } else if has(n, "SYSTEM_USER") || has(n, "SUSER_SNAME") {
        Some(session.effective_login.as_str())
    } else if has(n, "USER_NAME") {
        Some("dbo")
    } else if has(n, "IS_SRVROLEMEMBER") || has(n, "IS_MEMBER") || has(n, "HAS_PERMS_BY_NAME")
        || has(n, "FN_MY_PERMISSIONS") {
        Some("1")
    } else if has(n, "DB_NAME") {
        Some(session.current_database.as_str())
    } else {
        None
    }
}

/// The names of defined logins.
pub open spec fn defined_names(logins: Seq<DefinitionView>) -> Seq<Seq<char>> {
    Seq::new(logins.len(), |i: int| logins[i].name)
}

/// The names of all logins: those that every server has, those of the personality and those
/// that the client made, in order and each once.
pub open spec fn login_names(session: SessionView, personality: PersonalityView) -> Seq<
    Seq<char>,
> {
    ordered(
        seq!["sa"@, "##MS_PolicyEventProcessingLogin##"@] + defined_names(personality.logins)
            + session.synthetic_logins,
    )
}

fn all_logins(session: &SessionState, personality: &Personality) -> (names: Vec<String>)
    ensures
        views(names@) == login_names(session@, personality@),
{
    let mut names: Vec<String> = Vec::new();
    names.push("sa".to_owned());
    names.push("##MS_PolicyEventProcessingLogin##".to_owned());
    let ghost first = seq!["sa"@, "##MS_PolicyEventProcessingLogin##"@];
    assert(views(names@) =~= first);
    let ghost defined = defined_names(personality@.logins);
    let mut i: usize = 0;
    assert(first + defined.take(0) =~= first);
    while i < personality.logins.len()
        invariant
            i <= personality.logins@.len(),
            defined == defined_names(personality@.logins),
            views(names@) == first + defined.take(i as int),
        decreases personality.logins.len() - i,
    {
        assert(personality@.logins[i as int] == personality.logins@[i as int]@);
        names.push(personality.logins[i].login_name().to_owned());
        i += 1;
        assert(views(names@) =~= first + defined.take(i as int));
    }
    assert(defined.take(i as int) =~= defined);
    let ghost made = session@.synthetic_logins;
    let mut j: usize = 0;
    assert(first + defined + made.take(0) =~= first + defined);
    while j < session.synthetic_logins.len()
        invariant
            j <= session.synthetic_logins@.len(),
            made == session@.synthetic_logins,
            views(names@) == first + defined + made.take(j as int),
        decreases session.synthetic_logins.len() - j,
    {
        names.push(session.synthetic_logins[j].clone());
        j += 1;
        assert(views(names@) =~= first + defined + made.take(j as int));
    }
    assert(made.take(j as int) =~= made);
    sort_unique(&names)
}

/// The table that a question is answered with.
pub open spec fn discovered(n: Seq<char>, session: SessionView, personality: PersonalityView) -> Option<
    ResultSetView,
> {
    match answer_of(n, session, personality) {
        Some(value) => Some(single_cell(""@, value)),
        None => if holds(n, "SYS.DATABASES"@) || holds(n, "SP_DATABASES"@) {
            Some(list_table("name"@, personality.databases))
        } else if holds(n, "SYS.SERVER_PRINCIPALS"@) || holds(n, "SYS.SQL_LOGINS"@) || holds(
            n,
            "SP_HELPSRVLOGIN"@,
        ) {
            Some(
                pair_table(
                    "name"@,
                    "type_desc"@,
                    login_names(session, personality),
                    "SQL_LOGIN"@,
                ),
            )
        } else if holds(n, "SYS.SERVERS"@) || holds(n, "SP_LINKEDSERVERS"@) {
            Some(pair_table("name"@, "product"@, personality.linked_servers, "SQL Server"@))
        } else if holds(n, "SYSJOBS"@) || holds(n, "SP_HELP_JOB"@) {
            Some(pair_table("name"@, "enabled"@, session.synthetic_jobs, "1"@))
        } else {
            None
        },
    }
}

/// The table that a question is answered with.
pub fn discovery(n: &Vec<char>, session: &SessionState, personality: &Personality) -> (table: Option<
    ResultSet,
>)
    ensures
        opt_view(table) == discovered(n@, session@, personality@),
{
    if let Some(value) = answer(n, session, personality) {
        return Some(ResultSet::single("", value));
    }
    if has(n, "SYS.DATABASES") || has(n, "SP_DATABASES") {
        Some(list_of("name", &personality.databases))
    } else if has(n, "SYS.SERVER_PRINCIPALS") || has(n, "SYS.SQL_LOGINS") || has(
        n,
        "SP_HELPSRVLOGIN",
    ) {
        Some(pairs_of("name", "type_desc", &all_logins(session, personality), "SQL_LOGIN"))
    } else if has(n, "SYS.SERVERS") || has(n, "SP_LINKEDSERVERS") {
        Some(pairs_of("name", "product", &personality.linked_servers, "SQL Server"))
    } else if has(n, "SYSJOBS") || has(n, "SP_HELP_JOB") {
        Some(pairs_of("name", "enabled", &session.synthetic_jobs, "1"))
    } else {
        None
    }
}

} // verus!
