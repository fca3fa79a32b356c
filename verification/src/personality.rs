//! The server that is pretended to be there.
use crate::tds::login7::request::LoginRequest;
use crate::text::{
    ascii_lower, eq_ignore_ascii_case, lemma_views_empty, lemma_views_push, opt_view, str_eq, views,
};
use vstd::prelude::*;

verus! {

broadcast use {lemma_views_push, lemma_views_empty};

/// The identity that clients are shown, and how it reacts to them.
pub struct Personality {
    pub server_name: String,
    pub instance_name: String,
    pub sql_version: String,
    pub product_version: String,
    pub product_level: String,
    pub edition: String,
    pub os_version: String,
    pub domain: String,
    pub default_database: String,
    pub language: String,
    pub accept_unknown_logins: bool,
    /// A source is let in once it has made more login attempts than this.
    pub accept_source_after_attempts: Option<u64>,
    pub unknown_query_behavior: UnknownQueryBehavior,
    pub databases: Vec<String>,
    pub logins: Vec<LoginDefinition>,
    pub linked_servers: Vec<String>,
    pub honey_objects: Vec<String>,
}

/// What a statement is answered that no rule covers.
#[derive(Clone, Copy, Debug, PartialEq, Eq, Structural)]
pub enum UnknownQueryBehavior {
    Empty,
    Success,
    SyntaxError,
    PermissionDenied,
}

/// A login that is pretended to exist.
pub struct LoginDefinition {
    pub name: String,
    password: Option<String>,
    pub locked: bool,
    pub honey: bool,
}

/// What becomes of a login.
#[derive(Clone, Copy, Debug, PartialEq, Eq, Structural)]
pub enum AuthDecision {
    Accept,
    Reject,
    Locked,
}

/// The model of a [`Personality`].
pub struct PersonalityView {
    pub server_name: Seq<char>,
    pub instance_name: Seq<char>,
    pub sql_version: Seq<char>,
    pub product_version: Seq<char>,
    pub product_level: Seq<char>,
    pub edition: Seq<char>,
    pub os_version: Seq<char>,
    pub domain: Seq<char>,
    pub default_database: Seq<char>,
    pub language: Seq<char>,
    pub accept_unknown_logins: bool,
    pub accept_source_after_attempts: Option<u64>,
    pub unknown_query_behavior: UnknownQueryBehavior,
    pub databases: Seq<Seq<char>>,
    pub logins: Seq<DefinitionView>,
    pub linked_servers: Seq<Seq<char>>,
    pub honey_objects: Seq<Seq<char>>,
}

/// The model of a [`LoginDefinition`].
pub struct DefinitionView {
    pub name: Seq<char>,
    pub password: Option<Seq<char>>,
    pub locked: bool,
    pub honey: bool,
}

impl View for LoginDefinition {
    type V = DefinitionView;

    closed spec fn view(&self) -> DefinitionView {
        DefinitionView {
            name: self.name@,
            password: opt_view(self.password),
            locked: self.locked,
            honey: self.honey,
        }
    }
}

impl View for Personality {
    type V = PersonalityView;

    open spec fn view(&self) -> PersonalityView {
        PersonalityView {
            server_name: self.server_name@,
            instance_name: self.instance_name@,
            sql_version: self.sql_version@,
            product_version: self.product_version@,
            product_level: self.product_level@,
            edition: self.edition@,
            os_version: self.os_version@,
            domain: self.domain@,
            default_database: self.default_database@,
            language: self.language@,
            accept_unknown_logins: self.accept_unknown_logins,
            accept_source_after_attempts: self.accept_source_after_attempts,
            unknown_query_behavior: self.unknown_query_behavior,
            databases: views(self.databases@),
            logins: views(self.logins@),
            linked_servers: views(self.linked_servers@),
            honey_objects: views(self.honey_objects@),
        }
    }
}

impl LoginDefinition {
    /// A login; without a password any one is right.
    pub fn new(name: String, password: Option<String>, locked: bool, honey: bool) -> (login:
        LoginDefinition)
        ensures
            login@ == (DefinitionView { name: name@, password: opt_view(password), locked, honey }),
    {
        LoginDefinition { name, password, locked, honey }
    }

    /// The name of a login.
    pub fn login_name(&self) -> (name: &str)
        ensures
            name@ == self@.name,
    {
        self.name.as_str()
    }
}

/// The first login of a name from `i` on. Names differ only by more than the case of
/// ASCII letters.
pub open spec fn definition_of(logins: Seq<DefinitionView>, name: Seq<char>, i: int) -> Option<
    DefinitionView,
>
    decreases logins.len() - i,
{
    if i < 0 || i >= logins.len() {
        None
    } else if ascii_lower(logins[i].name) == ascii_lower(name) {
        Some(logins[i])
    } else {
        definition_of(logins, name, i + 1)
    }
}

/// What becomes of a login that was sent with this name and password.
pub open spec fn decision(
    personality: PersonalityView,
    name: Seq<char>,
    password: Option<Seq<char>>,
) -> AuthDecision {
    match definition_of(personality.logins, name, 0) {
        Some(login) => if login.locked {
            AuthDecision::Locked
        } else if login.password is Some && password != login.password {
            AuthDecision::Reject
        } else {
            AuthDecision::Accept
        },
        None => if personality.accept_unknown_logins {
            AuthDecision::Accept
        } else {
            AuthDecision::Reject
        },
    }
}

/// Whether a name belongs to a login that only an intruder would use.
pub open spec fn is_honey(logins: Seq<DefinitionView>, name: Seq<char>) -> bool {
    exists|i: int|
        0 <= i < logins.len() && (#[trigger] logins[i]).honey && ascii_lower(logins[i].name)
            == ascii_lower(name)
}

/// The model of the usual personality.
pub open spec fn usual_personality() -> PersonalityView {
    PersonalityView {
        server_name: "SQL-FIN-01"@,
        instance_name: "MSSQLSERVER"@,
        sql_version: "Microsoft SQL Server 2022 (RTM-CU18) - 16.0.4185.3 (X64)"@,
        product_version: "16.0.4185.3"@,
        product_level: "RTM"@,
        edition: "Enterprise Edition (64-bit)"@,
        os_version: "Windows Server 2022 Datacenter 10.0 (Build 20348)"@,
        domain: "CORP"@,
        default_database: "master"@,
        language: "us_english"@,
        accept_unknown_logins: true,
        accept_source_after_attempts: None,
        unknown_query_behavior: UnknownQueryBehavior::Empty,
        databases: seq!["master"@, "tempdb"@, "model"@, "msdb"@],
        logins: seq![],
        linked_servers: seq![],
        honey_objects: seq![],
    }
}

impl Default for Personality {
    fn default() -> (personality: Personality)
        ensures
            personality@ == usual_personality(),
    {
        let mut databases: Vec<String> = Vec::new();
        databases.push("master".to_owned());
        databases.push("tempdb".to_owned());
        databases.push("model".to_owned());
        databases.push("msdb".to_owned());
        assert(views(databases@) =~= seq!["master"@, "tempdb"@, "model"@, "msdb"@]);
        Personality {
            server_name: "SQL-FIN-01".to_owned(),
            instance_name: "MSSQLSERVER".to_owned(),
            sql_version: "Microsoft SQL Server 2022 (RTM-CU18) - 16.0.4185.3 (X64)".to_owned(),
            product_version: "16.0.4185.3".to_owned(),
            product_level: "RTM".to_owned(),
            edition: "Enterprise Edition (64-bit)".to_owned(),
            os_version: "Windows Server 2022 Datacenter 10.0 (Build 20348)".to_owned(),
            domain: "CORP".to_owned(),
            default_database: "master".to_owned(),
            language: "us_english".to_owned(),
            accept_unknown_logins: true,
            accept_source_after_attempts: None,
            unknown_query_behavior: UnknownQueryBehavior::Empty,
            databases,
            logins: Vec::new(),
            linked_servers: Vec::new(),
            honey_objects: Vec::new(),
        }
    }
}

impl Personality {
    /// What becomes of a login.
    pub fn authenticate(&self, login: &LoginRequest) -> (answer: AuthDecision)
        ensures
            answer == decision(self@, login@.username, login@.password),
    {
        let mut i: usize = 0;
        while i < self.logins.len()
            invariant
                i <= self.logins@.len(),
                definition_of(self@.logins, login@.username, 0) == definition_of(
                    self@.logins,
                    login@.username,
                    i as int,
                ),
            decreases self.logins.len() - i,
        {
            let entry = &self.logins[i];
            if eq_ignore_ascii_case(entry.name.as_str(), login.username.as_str()) {
                if entry.locked {
                    return AuthDecision::Locked;
                }
                return match (&entry.password, &login.password) {
                    (None, _) => AuthDecision::Accept,
                    (Some(_), None) => AuthDecision::Reject,
                    (Some(expected), Some(given)) => if str_eq(expected.as_str(), given.as_str()) {
                        AuthDecision::Accept
                    } else {
                        AuthDecision::Reject
                    },
                };
            }
            i += 1;
        }
        if self.accept_unknown_logins {
            AuthDecision::Accept
        } else {
            AuthDecision::Reject
        }
    }

    /// Whether a name belongs to a login that only an intruder would use.
    pub fn is_honey_login(&self, name: &str) -> (honey: bool)
        ensures
            honey == is_honey(self@.logins, name@),
    {
        let mut i: usize = 0;
        while i < self.logins.len()
            invariant
                i <= self.logins@.len(),
                forall|j: int|
                    0 <= j < i ==> !((#[trigger] self@.logins[j]).honey && ascii_lower(
                        self@.logins[j].name,
                    ) == ascii_lower(name@)),
            decreases self.logins.len() - i,
        {
            assert(self@.logins[i as int] == self.logins@[i as int]@);
            if self.logins[i].honey && eq_ignore_ascii_case(self.logins[i].name.as_str(), name) {
                return true;
            }
            i += 1;
        }
        false
    }
}

/// A login that is defined is decided by its definition alone: whether unknown logins are
/// let in makes no difference to it.
pub proof fn lemma_definition_decides(
    personality: PersonalityView,
    name: Seq<char>,
    password: Option<Seq<char>>,
    accept: bool,
)
    requires
        definition_of(personality.logins, name, 0) is Some,
    ensures
        decision(personality, name, password) == decision(
            PersonalityView { accept_unknown_logins: accept, ..personality },
            name,
            password,
        ),
{
}

} // verus!
