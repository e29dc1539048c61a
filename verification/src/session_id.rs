//! Session id.

use crate::error::{is_parse_error, map_add_intent, Error};
use crate::parse::{
    is_opaque_id, opaque_id, opaque_id_spec, whole_id_spec, whole_opaque_id, GrammarError,
    GrammarFailure,
};
use vstd::prelude::*;

verus! {

/// The character that every session id starts with.
pub const SESSION_PREFIX: char = '$';

/// The id of a tmux session.
///
/// It holds the text that tmux prints for the session, such as `$11`: the
/// prefix `$` and a decimal number.
#[derive(Debug)]
pub struct SessionId(String);

impl View for SessionId {
    type V = Seq<char>;

    closed spec fn view(&self) -> Seq<char> {
        self.0@
    }
}

impl Clone for SessionId {
    fn clone(&self) -> (copy: Self)
        ensures
            copy@ == self@,
    {
        proof {
            use_type_invariant(self);
        }
        SessionId(self.0.clone())
    }
}

impl PartialEq for SessionId {
    fn eq(&self, other: &Self) -> (r: bool) {
        self.0 == other.0
    }
}

impl vstd::std_specs::cmp::PartialEqSpecImpl for SessionId {
    open spec fn obeys_eq_spec() -> bool {
        true
    }

    open spec fn eq_spec(&self, other: &Self) -> bool {
        self@ == other@
    }
}

impl Eq for SessionId {

}

impl SessionId {
    /// Every session id is the prefix `$` followed by decimal digits.
    #[verifier::type_invariant]
    spec fn well_formed(&self) -> bool {
        is_opaque_id(SESSION_PREFIX, self.0@)
    }

    /// The text of the id, as tmux prints it.
    pub fn as_str(&self) -> (s: &str)
        ensures
            s@ == self@,
            is_opaque_id(SESSION_PREFIX, s@),
    {
        proof {
            use_type_invariant(self);
        }
        self.0.as_str()
    }

    /// Read a session id that is the whole of `input`: `$` followed by one
    /// decimal digit or more.
    ///
    /// # Errors
    ///
    /// `Error::ParseError` where `input` is anything else.
    pub fn parse(input: &str) -> (r: Result<SessionId, Error>)
        ensures
            r is Ok <==> is_opaque_id(SESSION_PREFIX, input@),
            r matches Ok(id) ==> id@ == input@,
            r matches Err(e) ==> whole_id_spec(SESSION_PREFIX, input@) matches Err(f)
                && is_parse_error(e, "SessionId"@, "##{session_id}"@, f),
    {
        let desc = "SessionId";
        let intent = "##{session_id}";
        match whole_opaque_id(SESSION_PREFIX, input) {
            Ok(id) => Ok(SessionId(id.to_owned())),
            Err(e) => Err(map_add_intent(desc, intent, e)),
        }
    }
}

impl std::str::FromStr for SessionId {
    type Err = Error;

    /// Read a session id that is the whole of `input`, as `SessionId::parse`
    /// does.
    fn from_str(input: &str) -> (r: Result<SessionId, Error>)
        ensures
            r is Ok <==> is_opaque_id(SESSION_PREFIX, input@),
            r matches Ok(id) ==> id@ == input@,
            r matches Err(e) ==> whole_id_spec(SESSION_PREFIX, input@) matches Err(f)
                && is_parse_error(e, "SessionId"@, "##{session_id}"@, f),
    {
        SessionId::parse(input)
    }
}

/// Read the session id that `input` starts with, and leave what follows it.
pub fn session_id(input: &str) -> (r: Result<(&str, SessionId), GrammarError>)
    ensures
        match r {
            Ok((rest, id)) => opaque_id_spec(SESSION_PREFIX, input@) == Ok::<
                (Seq<char>, Seq<char>),
                GrammarFailure,
            >((rest@, id@)),
            Err(e) => opaque_id_spec(SESSION_PREFIX, input@) == Err::<
                (Seq<char>, Seq<char>),
                GrammarFailure,
            >(e@),
        },
{
    match opaque_id(SESSION_PREFIX, input) {
        Ok((rest, id)) => Ok((rest, SessionId(id.to_owned()))),
        Err(e) => Err(e),
    }
}

} // verus!
