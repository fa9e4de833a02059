//! What a transaction knows of who is asking.

use crate::context::{
    bound_settings, law_put_then_get, session_document, setting_calls, setting_name, settings_of,
    variable_entries, variable_settings,
};
use crate::json::{entry_of, JsonV};
use crate::statement::put;
use crate::text::{decimal, replaced};
use vstd::prelude::*;

verus! {

/// A name may be that of a setting where it is made of ASCII letters, digits
/// and underscores, and is not empty.
pub proof fn law_setting_names_are_plain(name: Seq<char>)
    ensures
        setting_name(name) <==> name.len() > 0 && forall|i: int|
            0 <= i < name.len() ==> {
                let c = #[trigger] name[i];
                ('a' <= c <= 'z') || ('A' <= c <= 'Z') || ('0' <= c <= '9') || c == '_'
            },
{
}

proof fn lemma_settings(
    session: Seq<(Seq<char>, Seq<char>)>,
    i: nat,
    acc: Seq<(Seq<char>, Seq<char>)>,
    k: int,
)
    requires
        0 <= k < session.len() ==> setting_name(session[k].0),
    ensures
        ({
            let r = variable_settings(session, i, acc);
            &&& forall|j: int| 0 <= j < acc.len() ==> r.contains(#[trigger] acc[j])
            &&& i <= k < session.len() ==> r.contains(
                ("hasura."@ + session[k].0, session[k].1),
            )
        }),
    decreases session.len() - i,
{
    if i < session.len() {
        if setting_name(session[i as int].0) {
            let here = ("hasura."@ + session[i as int].0, session[i as int].1);
            let next = acc.push(here);
            lemma_settings(session, i + 1, next, k);
            let r = variable_settings(session, i, acc);
            assert(r.contains(next[acc.len() as int]));
            assert forall|j: int| 0 <= j < acc.len() implies r.contains(#[trigger] acc[j]) by {
                assert(next[j] == acc[j]);
                assert(r.contains(next[j]));
            }
        } else {
            lemma_settings(session, i + 1, acc, k);
        }
    } else {
        assert forall|j: int| 0 <= j < acc.len() implies acc.contains(#[trigger] acc[j]) by {}
    }
}

/// Every variable of the session whose name can be a setting is one, under its
/// name after `hasura.`, with its own value. The role that is asking is another.
pub proof fn law_session_variables_are_settings(
    session: Seq<(Seq<char>, Seq<char>)>,
    role: Seq<char>,
    k: int,
)
    requires
        0 <= k < session.len(),
        setting_name(session[k].0),
    ensures
        settings_of(session, role).contains(("hasura."@ + session[k].0, session[k].1)),
        settings_of(session, role).last() == ("hasura.role"@, role),
{
    lemma_settings(session, 0, Seq::empty(), k);
    let inner = variable_settings(session, 0, Seq::empty());
    let wanted = ("hasura."@ + session[k].0, session[k].1);
    let j = choose|j: int| 0 <= j < inner.len() && inner[j] == wanted;
    assert(settings_of(session, role)[j] == wanted);
}

/// What a variable of the session is called in its document.
pub open spec fn document_name(name: Seq<char>) -> Seq<char> {
    "x-hasura-"@ + replaced(name, '_', "-"@)
}

proof fn lemma_entries(
    session: Seq<(Seq<char>, Seq<char>)>,
    i: nat,
    acc: Seq<(Seq<char>, JsonV)>,
    k: int,
)
    requires
        0 <= k < session.len(),
        forall|j: int|
            0 <= j < session.len() && j != k ==> document_name((#[trigger] session[j]).0)
                != document_name(session[k].0),
    ensures
        entry_of(variable_entries(session, i, acc), document_name(session[k].0)) == (if i <= k {
            Some(JsonV::String(session[k].1))
        } else {
            entry_of(acc, document_name(session[k].0))
        }),
    decreases session.len() - i,
{
    if i < session.len() {
        let key = document_name(session[i as int].0);
        let value = JsonV::String(session[i as int].1);
        lemma_entries(session, i + 1, put(acc, key, value), k);
        law_put_then_get(acc, key, value, document_name(session[k].0));
        if i != k {
            assert(document_name(session[i as int].0) != document_name(session[k].0));
        }
    }
}

/// The session document holds every variable of the session under its name,
/// with dashes for underscores, unless another is called so too or it is the
/// role's own.
pub proof fn law_the_session_document_holds_its_variables(
    session: Seq<(Seq<char>, Seq<char>)>,
    role: Seq<char>,
    k: int,
)
    requires
        0 <= k < session.len(),
        forall|j: int|
            0 <= j < session.len() && j != k ==> document_name((#[trigger] session[j]).0)
                != document_name(session[k].0),
        document_name(session[k].0) != "x-hasura-role"@,
    ensures
        session_document(session, role).get("x-hasura-"@ + replaced(session[k].0, '_', "-"@))
            == Some(JsonV::String(session[k].1)),
{
    let inner = variable_entries(session, 0, Seq::empty());
    lemma_entries(session, 0, Seq::empty(), k);
    law_put_then_get(
        inner,
        "x-hasura-role"@,
        JsonV::String(role),
        document_name(session[k].0),
    );
}

/// Each setting is made for the transaction alone, by its name and its value,
/// which are bound one after the other.
pub proof fn law_each_setting_is_made(settings: Seq<(Seq<char>, Seq<char>)>, k: int)
    requires
        0 <= k < settings.len(),
    ensures
        setting_calls(settings.len()).len() == settings.len(),
        setting_calls(settings.len())[k] == "set_config($"@ + decimal((2 * k + 1) as nat) + ", $"@
            + decimal((2 * k + 2) as nat) + ", true)"@,
        bound_settings(settings).len() == 2 * settings.len(),
        bound_settings(settings)[2 * k] == settings[k].0,
        bound_settings(settings)[2 * k + 1] == settings[k].1,
{
    assert((2 * k) % 2 == 0 && (2 * k) / 2 == k);
    assert((2 * k + 1) % 2 == 1 && (2 * k + 1) / 2 == k);
}

} // verus!
