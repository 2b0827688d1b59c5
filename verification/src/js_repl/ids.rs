//! Fresh names for sessions and code.

use vstd::prelude::*;

use crate::js_repl::args::JsReplArgs;
use crate::text::is_blank;
use crate::text::is_white;

verus! {

/// Whether a character is a lower-case hexadecimal digit.
pub open spec fn is_hex(ch: char) -> bool {
    ('0' <= ch && ch <= '9') || ('a' <= ch && ch <= 'f')
}

/// Whether a place in a fresh name holds a hyphen.
pub open spec fn is_hyphen_place(at: int) -> bool {
    at == 8 || at == 13 || at == 18 || at == 23
}

/// Whether a text has the form of a fresh name: thirty-two hexadecimal digits in five groups, of
/// which the third starts with the version and the fourth with the variant.
pub open spec fn is_fresh_form(id: Seq<char>) -> bool {
    &&& id.len() == 36
    &&& id[14] == '4'
    &&& id[19] == '8' || id[19] == '9' || id[19] == 'a' || id[19] == 'b'
    &&& forall|i: int|
        0 <= i < id.len() ==> if is_hyphen_place(i) {
            #[trigger] id[i] == '-'
        } else {
            is_hex(id[i])
        }
}

/// `uuid::Uuid::new_v4`, and the notation that its `to_string` gives: thirty-two lower-case
/// hexadecimal digits in groups of 8, 4, 4, 4 and 12 with hyphens between them. The first digit of
/// the third group is the version, 4; that of the fourth holds the variant, and is 8, 9, a or b.
/// The other digits are left to chance; that two names differ is likely, and not claimed.
#[verifier::external_body]
pub(crate) fn fresh_uuid() -> (id: String)
    ensures
        is_fresh_form(id@),
{
    uuid::Uuid::new_v4().to_string()
}

/// A fresh name for code.
pub fn fresh_exec_id() -> (id: String)
    ensures
        is_fresh_form(id@),
{
    fresh_uuid()
}

/// A fresh name is never blank.
pub proof fn lemma_fresh_not_blank(id: Seq<char>)
    requires
        is_fresh_form(id),
    ensures
        !is_blank(id),
{
    assert(is_hex(id[0]));
    assert(!is_white(id[0]));
}

/// The session in which code is to run.
#[derive(Clone, Debug, PartialEq, Eq)]
pub struct SessionChoice {
    /// Its name.
    pub session_id: String,
    /// Whether the model named it.
    pub provided: bool,
}

/// The session in which code is to run: the one that the model names, or else one with a fresh
/// name.
pub fn choose_session_id(args: &JsReplArgs) -> (choice: SessionChoice)
    ensures
        choice.provided == (args@.session_id is Some),
        match args@.session_id {
            Some(session_id) => choice.session_id@ == session_id,
            None => is_fresh_form(choice.session_id@),
        },
{
    match &args.session_id {
        Some(session_id) => SessionChoice { session_id: session_id.clone(), provided: true },
        None => SessionChoice { session_id: fresh_uuid(), provided: false },
    }
}

} // verus!
