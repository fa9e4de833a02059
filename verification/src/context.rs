//! Who is asking: the role and session of a request, and what a transaction
//! is told of them.

use crate::condition::{lemma_place_of, lemma_place_range, place_of};
use crate::json::{
    entries_view, entry_of, json_ref, json_text, lemma_entry_of, lemma_no_entry, lemma_object_view,
    well_keyed, Json, JsonV,
};
use crate::lookup::once;
use crate::projection::{pairs, push_pair};
use crate::statement::{
    law_put_all_keeps_keys_once, law_put_keeps_keys_once, put, put_all, put_entries, put_entry,
};
use crate::text::{
    cat2, cat5, chars_of, decimal, decimal_text, escape_ident, ident, join, joined, owned,
    push_text, replace_char, replaced, str_opt, text_opt, texts,
};
use vstd::prelude::*;

verus! {

// ---------------------------------------------------------------------------
// Settings of a transaction
// ---------------------------------------------------------------------------

/// A letter or digit of ASCII, or an underscore.
pub open spec fn setting_char(c: char) -> bool {
    ||| 'a' <= c <= 'z'
    ||| 'A' <= c <= 'Z'
    ||| '0' <= c <= '9'
    ||| c == '_'
}

/// Whether a session variable's name can name a setting.
pub open spec fn setting_name(name: Seq<char>) -> bool {
    name.len() > 0 && forall|i: int| 0 <= i < name.len() ==> setting_char(#[trigger] name[i])
}

/// Whether a session variable's name can name a setting.
pub fn is_setting_name(name: &str) -> (r: bool)
    ensures
        r == setting_name(name@),
{
    let cs = chars_of(name);
    let mut i: usize = 0;
    while i < cs.len()
        invariant
            i <= cs.len(),
            cs@ == name@,
            forall|j: int| 0 <= j < i ==> setting_char(#[trigger] name@[j]),
        decreases cs.len() - i,
    {
        let c = cs[i];
        let fits = ('a' <= c && c <= 'z') || ('A' <= c && c <= 'Z') || ('0' <= c && c <= '9') || c
            == '_';
        if !fits {
            assert(!setting_char(name@[i as int]));
            return false;
        }
        i += 1;
    }
    cs.len() > 0
}

/// The settings of the session variables from the `i`th on, after those so far.
pub open spec fn variable_settings(
    session: Seq<(Seq<char>, Seq<char>)>,
    i: nat,
    acc: Seq<(Seq<char>, Seq<char>)>,
) -> Seq<(Seq<char>, Seq<char>)>
    decreases session.len() - i,
{
    if i >= session.len() {
        acc
    } else if setting_name(session[i as int].0) {
        variable_settings(
            session,
            i + 1,
            acc.push(("hasura."@ + session[i as int].0, session[i as int].1)),
        )
    } else {
        variable_settings(session, i + 1, acc)
    }
}

/// The entries of the session document for the variables from the `i`th on.
pub open spec fn variable_entries(
    session: Seq<(Seq<char>, Seq<char>)>,
    i: nat,
    acc: Seq<(Seq<char>, JsonV)>,
) -> Seq<(Seq<char>, JsonV)>
    decreases session.len() - i,
{
    if i >= session.len() {
        acc
    } else {
        variable_entries(
            session,
            i + 1,
            put(
                acc,
                "x-hasura-"@ + replaced(session[i as int].0, '_', "-"@),
                JsonV::String(session[i as int].1),
            ),
        )
    }
}

/// The session as one document: each variable under the name it arrived as,
/// and the role.
pub open spec fn session_document(session: Seq<(Seq<char>, Seq<char>)>, role: Seq<char>) -> JsonV {
    JsonV::Object(
        put(variable_entries(session, 0, Seq::empty()), "x-hasura-role"@, JsonV::String(role)),
    )
}

/// The settings a session and its role give a transaction.
pub open spec fn settings_of(
    session: Seq<(Seq<char>, Seq<char>)>,
    role: Seq<char>,
) -> Seq<(Seq<char>, Seq<char>)> {
    variable_settings(session, 0, Seq::empty()).push(
        ("hasura.session"@, json_text(session_document(session, role))),
    ).push(("hasura.role"@, role))
}

/// The session as a function that takes it expects it.
///
/// Variables are held stripped of their prefix and with underscores for the
/// settings that a policy reads; here the prefix and the dashes go back on.
/// The role is that of the caller, whatever the variables say.
pub fn hasura_session_document(session: &Vec<(String, String)>, role: &str) -> (r: Json)
    ensures
        r@ == session_document(pairs(session@), role@),
{
    let mut entries: Vec<(String, Json)> = Vec::new();
    assert(entries_view(entries@) =~= Seq::empty());
    let mut i: usize = 0;
    while i < session.len()
        invariant
            i <= session.len(),
            variable_entries(pairs(session@), 0, Seq::empty()) == variable_entries(
                pairs(session@),
                i as nat,
                entries_view(entries@),
            ),
        decreases session.len() - i,
    {
        assert(pairs(session@)[i as int] == (session@[i as int].0@, session@[i as int].1@));
        let name = cat2("x-hasura-", &replace_char(&session[i].0, '_', "-"));
        put_entry(&mut entries, name, Json::String(session[i].1.clone()));
        i += 1;
    }
    put_entry(&mut entries, owned("x-hasura-role"), Json::String(owned(role)));
    proof {
        lemma_object_view(entries);
    }
    Json::Object(entries)
}

/// The settings of a transaction that a session and its role ask for: one for
/// each variable whose name can be one, the whole session as a document, and
/// the role on its own.
pub fn session_settings_for(session: &Vec<(String, String)>, role: &str) -> (r: Vec<
    (String, String),
>)
    ensures
        pairs(r@) == settings_of(pairs(session@), role@),
{
    let mut settings: Vec<(String, String)> = Vec::new();
    assert(pairs(settings@) =~= Seq::empty());
    let mut i: usize = 0;
    while i < session.len()
        invariant
            i <= session.len(),
            variable_settings(pairs(session@), 0, Seq::empty()) == variable_settings(
                pairs(session@),
                i as nat,
                pairs(settings@),
            ),
        decreases session.len() - i,
    {
        assert(pairs(session@)[i as int] == (session@[i as int].0@, session@[i as int].1@));
        if is_setting_name(&session[i].0) {
            push_pair(&mut settings, cat2("hasura.", &session[i].0), session[i].1.clone());
        }
        i += 1;
    }
    let document = hasura_session_document(session, role);
    push_pair(&mut settings, owned("hasura.session"), document.text());
    push_pair(&mut settings, owned("hasura.role"), owned(role));
    settings
}

// ---------------------------------------------------------------------------
// The request
// ---------------------------------------------------------------------------

/// What authenticated a request: the database role, and the claims.
pub struct AuthResult {
    pub role: String,
    pub claims: Vec<(String, Json)>,
}

impl AuthResult {
    /// The claims are a map, and so is every object among them.
    pub open spec fn wf(self) -> bool {
        well_keyed(JsonV::Object(entries_view(self.claims@)))
    }
}

/// Who a caller is, for narrowing rows to them.
pub struct Identity<'a> {
    pub role: Option<&'a str>,
    pub session: &'a Vec<(String, String)>,
}

/// What is known of a request while it is answered.
pub struct GraphQLContext {
    /// The database role and the claims.
    pub auth: AuthResult,
    /// The session variables, without their prefix and in lower case.
    pub session: Vec<(String, String)>,
    /// The role the caller speaks as, where one was named.
    pub hasura_role: Option<String>,
    /// Whether the admin secret authenticated the request.
    pub elevated: bool,
}

/// The claims with the database role among them.
pub open spec fn claims_document(auth: AuthResult) -> JsonV {
    JsonV::Object(
        put(
            put_all(Seq::empty(), entries_view(auth.claims@), 0),
            "role"@,
            JsonV::String(auth.role@),
        ),
    )
}

/// The session document is a map, whatever the variables are called.
pub proof fn law_session_document_is_a_map(session: Seq<(Seq<char>, Seq<char>)>, role: Seq<char>)
    ensures
        well_keyed(session_document(session, role)),
{
    lemma_variables_are_a_map(session, 0, Seq::empty());
    law_put_keeps_keys_once(
        variable_entries(session, 0, Seq::empty()),
        "x-hasura-role"@,
        JsonV::String(role),
    );
}

proof fn lemma_variables_are_a_map(
    session: Seq<(Seq<char>, Seq<char>)>,
    i: nat,
    acc: Seq<(Seq<char>, JsonV)>,
)
    requires
        well_keyed(JsonV::Object(acc)),
    ensures
        well_keyed(JsonV::Object(variable_entries(session, i, acc))),
    decreases session.len() - i,
{
    if i < session.len() {
        let name = "x-hasura-"@ + replaced(session[i as int].0, '_', "-"@);
        let value = JsonV::String(session[i as int].1);
        law_put_keeps_keys_once(acc, name, value);
        lemma_variables_are_a_map(session, i + 1, put(acc, name, value));
    }
}

/// The claims document is a map where the claims are one.
pub proof fn law_claims_document_is_a_map(auth: AuthResult)
    requires
        auth.wf(),
    ensures
        well_keyed(claims_document(auth)),
{
    let claims = put_all(Seq::empty(), entries_view(auth.claims@), 0);
    law_put_all_keeps_keys_once(Seq::empty(), entries_view(auth.claims@), 0);
    law_put_keeps_keys_once(claims, "role"@, JsonV::String(auth.role@));
}

impl GraphQLContext {
    /// The role the caller speaks as: the one that was named, else the
    /// database role.
    pub open spec fn acting(self) -> Seq<char> {
        match text_opt(self.hasura_role) {
            Some(role) => role,
            None => self.auth.role@,
        }
    }

    /// The session and the claims are maps: no name stands twice in either.
    pub open spec fn wf(self) -> bool {
        once(pairs(self.session@)) && self.auth.wf()
    }

    /// A context with no session, no named role and no secret.
    pub fn new(auth: AuthResult) -> (r: GraphQLContext)
        ensures
            r.auth == auth,
            r.session@.len() == 0,
            r.hasura_role is None,
            !r.elevated,
            auth.wf() ==> r.wf(),
    {
        GraphQLContext { auth, session: Vec::new(), hasura_role: None, elevated: false }
    }

    /// Records who the caller is, and whether it proved it.
    pub fn with_identity(self, role: Option<String>, elevated: bool) -> (r: GraphQLContext)
        ensures
            r == (GraphQLContext { hasura_role: role, elevated, ..self }),
            self.wf() ==> r.wf(),
    {
        let mut this = self;
        this.hasura_role = role;
        this.elevated = elevated;
        this
    }

    /// Carries session variables into every transaction of the request.
    pub fn with_session(self, session: Vec<(String, String)>) -> (r: GraphQLContext)
        ensures
            r == (GraphQLContext { session, ..self }),
            self.wf() && once(pairs(session@)) ==> r.wf(),
    {
        let mut this = self;
        this.session = session;
        this
    }

    /// The role the caller speaks as.
    pub fn acting_role(&self) -> (r: &str)
        ensures
            r@ == self.acting(),
    {
        match &self.hasura_role {
            Some(role) => role.as_str(),
            None => self.auth.role.as_str(),
        }
    }

    /// Who is asking. The named role alone: the database role standing in for
    /// a missing one would name no permission.
    pub fn caller(&self) -> (r: Identity<'_>)
        ensures
            str_opt(r.role) == text_opt(self.hasura_role),
            *r.session == self.session,
    {
        let role = match &self.hasura_role {
            Some(role) => Some(role.as_str()),
            None => None,
        };
        Identity { role, session: &self.session }
    }

    /// The settings this request's transactions need: those of the session,
    /// and the claims with the database role among them.
    pub fn session_settings(&self) -> (r: Vec<(String, String)>)
        ensures
            pairs(r@) == settings_of(pairs(self.session@), self.acting()).push(
                ("request.jwt.claims"@, json_text(claims_document(self.auth))),
            ),
    {
        let mut settings = session_settings_for(&self.session, self.acting_role());
        let mut claims: Vec<(String, Json)> = Vec::new();
        assert(entries_view(claims@) =~= Seq::empty());
        put_entries(&mut claims, &self.auth.claims);
        put_entry(&mut claims, owned("role"), Json::String(self.auth.role.clone()));
        proof {
            lemma_object_view(claims);
        }
        let document = Json::Object(claims);
        push_pair(&mut settings, owned("request.jwt.claims"), document.text());
        settings
    }

    /// The session as a function that takes it expects it.
    pub fn hasura_session(&self) -> (r: Json)
        ensures
            r@ == session_document(pairs(self.session@), self.acting()),
    {
        hasura_session_document(&self.session, self.acting_role())
    }

    /// The database role the request's transactions run as.
    pub fn role(&self) -> (r: &str)
        ensures
            r@ == self.auth.role@,
    {
        self.auth.role.as_str()
    }

    /// The value of a claim.
    pub fn claim(&self, key: &str) -> (r: Option<&Json>)
        ensures
            json_ref(r) == entry_of(entries_view(self.auth.claims@), key@),
    {
        let found = crate::condition::position_of(&self.auth.claims, key);
        proof {
            lemma_place_of(entries_view(self.auth.claims@), key@);
        }
        match found {
            Some(i) => {
                assert(entries_view(self.auth.claims@)[i as int].1
                    == self.auth.claims@[i as int].1@);
                Some(&self.auth.claims[i].1)
            },
            None => None,
        }
    }
}

// ---------------------------------------------------------------------------
// The statements that open a transaction
// ---------------------------------------------------------------------------

/// The calls that make the first `n` settings.
pub open spec fn setting_calls(n: nat) -> Seq<Seq<char>> {
    Seq::new(
        n,
        |i: int| "set_config($"@ + decimal((2 * i + 1) as nat) + ", $"@ + decimal((2 * i + 2) as nat) + ", true)"@,
    )
}

/// The settings' names and values in the order they are bound.
pub open spec fn bound_settings(settings: Seq<(Seq<char>, Seq<char>)>) -> Seq<Seq<char>> {
    Seq::new(
        2 * settings.len(),
        |i: int|
            if i % 2 == 0 {
                settings[i / 2].0
            } else {
                settings[i / 2].1
            },
    )
}

/// The statement that makes the settings, and what is bound to it. There is
/// none where there is nothing to set.
pub fn settings_statement(settings: &Vec<(String, String)>) -> (r: Option<(String, Vec<String>)>)
    ensures
        r is None <==> settings@.len() == 0,
        r is Some ==> (r->0).0@ == "SELECT "@ + joined(setting_calls(settings@.len()), ", "@),
        r is Some ==> texts((r->0).1@) == bound_settings(pairs(settings@)),
{
    if settings.len() == 0 {
        return None;
    }
    let mut calls: Vec<String> = Vec::new();
    let mut values: Vec<String> = Vec::new();
    assert(texts(calls@) =~= setting_calls(0));
    let mut i: usize = 0;
    while i < settings.len()
        invariant
            i <= settings.len(),
            texts(calls@) == setting_calls(i as nat),
            values@.len() == 2 * i,
            forall|j: int| 0 <= j < i ==> #[trigger] values@[2 * j]@ == settings@[j].0@,
            forall|j: int| 0 <= j < i ==> #[trigger] values@[2 * j + 1]@ == settings@[j].1@,
        decreases settings.len() - i,
    {
        let at: u128 = 2 * (i as u128);
        push_text(
            &mut calls,
            cat5("set_config($", &decimal_text(at + 1), ", $", &decimal_text(at + 2), ", true)"),
        );
        assert(texts(calls@) =~= setting_calls((i + 1) as nat));
        values.push(settings[i].0.clone());
        values.push(settings[i].1.clone());
        i += 1;
    }
    assert(texts(values@) =~= bound_settings(pairs(settings@))) by {
        assert forall|k: int| 0 <= k < values@.len() implies texts(values@)[k] == bound_settings(
            pairs(settings@),
        )[k] by {
            let j = k / 2;
            assert(k == 2 * j || k == 2 * j + 1);
            assert(0 <= j < settings@.len());
            assert(values@[2 * j]@ == settings@[j].0@);
            assert(values@[2 * j + 1]@ == settings@[j].1@);
        }
    }
    Some((cat2("SELECT ", &join(&calls, ", ")), values))
}

/// The statement that takes on the database role. It follows the settings: a
/// role with fewer privileges may not be allowed to make them.
pub fn role_statement(role: &str) -> (r: String)
    ensures
        r@ == "SET LOCAL ROLE "@ + ident(role@),
{
    cat2("SET LOCAL ROLE ", &escape_ident(role))
}

// ---------------------------------------------------------------------------
// Laws
// ---------------------------------------------------------------------------

/// What an entry list says after a key has been given a value: the value under
/// that key, and what it said before under every other.
pub proof fn law_put_then_get(
    entries: Seq<(Seq<char>, JsonV)>,
    key: Seq<char>,
    value: JsonV,
    other: Seq<char>,
)
    ensures
        entry_of(put(entries, key, value), key) == Some(value),
        other != key ==> entry_of(put(entries, key, value), other) == entry_of(entries, other),
{
    lemma_place_range(entries, key, 0);
    let k = place_of(entries, key, 0) as int;
    let after = put(entries, key, value);
    lemma_entry_of(after, key, k);
    if other != key {
        lemma_place_range(entries, other, 0);
        lemma_place_of(entries, other);
        let o = place_of(entries, other, 0) as int;
        if o < entries.len() {
            lemma_entry_of(after, other, o);
        } else {
            lemma_no_entry(after, other);
        }
    }
}

/// The session document says which role is asking, whatever the session's own
/// variables are.
pub proof fn law_document_names_the_role(session: Seq<(Seq<char>, Seq<char>)>, role: Seq<char>)
    ensures
        session_document(session, role).get("x-hasura-role"@) == Some(JsonV::String(role)),
{
    law_put_then_get(
        variable_entries(session, 0, Seq::empty()),
        "x-hasura-role"@,
        JsonV::String(role),
        Seq::empty(),
    );
}

/// The claims document says which database role the transaction runs as,
/// whatever the claims themselves say, and keeps every other claim.
pub proof fn law_claims_name_the_role(auth: AuthResult, key: Seq<char>)
    ensures
        claims_document(auth).get("role"@) == Some(JsonV::String(auth.role@)),
        key != "role"@ ==> claims_document(auth).get(key) == JsonV::Object(
            put_all(Seq::empty(), entries_view(auth.claims@), 0),
        ).get(key),
{
    law_put_then_get(
        put_all(Seq::empty(), entries_view(auth.claims@), 0),
        "role"@,
        JsonV::String(auth.role@),
        key,
    );
}

/// Whether a setting is that of a session variable whose name can be one.
pub open spec fn from_variable(
    session: Seq<(Seq<char>, Seq<char>)>,
    setting: (Seq<char>, Seq<char>),
) -> bool {
    exists|v: int|
        0 <= v < session.len() && setting_name(#[trigger] session[v].0) && setting == (
            "hasura."@ + session[v].0,
            session[v].1,
        )
}

proof fn lemma_variable_settings(
    session: Seq<(Seq<char>, Seq<char>)>,
    i: nat,
    acc: Seq<(Seq<char>, Seq<char>)>,
    k: int,
)
    requires
        forall|j: int| 0 <= j < acc.len() ==> from_variable(session, #[trigger] acc[j]),
        0 <= k < variable_settings(session, i, acc).len(),
    ensures
        from_variable(session, variable_settings(session, i, acc)[k]),
    decreases session.len() - i,
{
    if i < session.len() {
        if setting_name(session[i as int].0) {
            let next = acc.push(("hasura."@ + session[i as int].0, session[i as int].1));
            assert(from_variable(session, next[acc.len() as int]));
            lemma_variable_settings(session, i + 1, next, k);
        } else {
            lemma_variable_settings(session, i + 1, acc, k);
        }
    }
}

/// No name reaches a setting but one that could be one: each setting is the
/// role, the document, or a variable whose name holds only ASCII letters,
/// digits and underscores.
pub proof fn law_only_setting_names(
    session: Seq<(Seq<char>, Seq<char>)>,
    role: Seq<char>,
    k: int,
)
    requires
        0 <= k < settings_of(session, role).len(),
    ensures
        ({
            let s = settings_of(session, role);
            ||| k == s.len() - 1 && s[k] == ("hasura.role"@, role)
            ||| k == s.len() - 2 && s[k] == (
                "hasura.session"@,
                json_text(session_document(session, role)),
            )
            ||| from_variable(session, s[k])
        }),
{
    let s = settings_of(session, role);
    if k < s.len() - 2 {
        lemma_variable_settings(session, 0, Seq::empty(), k);
    }
}

} // verus!
