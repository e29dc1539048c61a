//! Pane id.

use crate::error::{is_parse_error, map_add_intent, Error};
use crate::parse::{
    is_opaque_id, opaque_id, opaque_id_spec, whole_id_spec, whole_opaque_id, GrammarError,
    GrammarFailure,
};
use vstd::prelude::*;

verus! {

/// The character that every pane id starts with.
pub const PANE_PREFIX: char = '%';

/// The id of a tmux pane.
///
/// It holds the text that tmux prints for the pane, such as `%7`: the
/// prefix `%` and a decimal number.
#[derive(Debug)]
pub struct PaneId(String);

impl View for PaneId {
    type V = Seq<char>;

    closed spec fn view(&self) -> Seq<char> {
        self.0@
    }
}

impl Clone for PaneId {
    fn clone(&self) -> (copy: Self)
        ensures
            copy@ == self@,
    {
        proof {
            use_type_invariant(self);
        }
        PaneId(self.0.clone())
    }
}

impl PartialEq for PaneId {
    fn eq(&self, other: &Self) -> (r: bool) {
        self.0 == other.0
    }
}

impl vstd::std_specs::cmp::PartialEqSpecImpl for PaneId {
    open spec fn obeys_eq_spec() -> bool {
        true
    }

    open spec fn eq_spec(&self, other: &Self) -> bool {
        self@ == other@
    }
}

impl Eq for PaneId {

}

impl PaneId {
    /// Every pane id is the prefix `%` followed by decimal digits.
    #[verifier::type_invariant]
    spec fn well_formed(&self) -> bool {
        is_opaque_id(PANE_PREFIX, self.0@)
    }

    /// The text of the id, as tmux prints it.
    pub fn as_str(&self) -> (s: &str)
        ensures
            s@ == self@,
            is_opaque_id(PANE_PREFIX, s@),
    {
        proof {
            use_type_invariant(self);
        }
        self.0.as_str()
    }

    /// Read a pane id that is the whole of `input`: `%` followed by one
    /// decimal digit or more.
    ///
    /// # Errors
    ///
    /// `Error::ParseError` where `input` is anything else.
    pub fn parse(input: &str) -> (r: Result<PaneId, Error>)
        ensures
            r is Ok <==> is_opaque_id(PANE_PREFIX, input@),
            r matches Ok(id) ==> id@ == input@,
            r matches Err(e) ==> whole_id_spec(PANE_PREFIX, input@) matches Err(f)
                && is_parse_error(e, "PaneId"@, "##{pane_id}"@, f),
    {
        let desc = "PaneId";
        let intent = "##{pane_id}";
        match whole_opaque_id(PANE_PREFIX, input) {
            Ok(id) => Ok(PaneId(id.to_owned())),
            Err(e) => Err(map_add_intent(desc, intent, e)),
        }
    }
}

impl std::str::FromStr for PaneId {
    type Err = Error;

    /// Read a pane id that is the whole of `input`, as `PaneId::parse`
    /// does.
    fn from_str(input: &str) -> (r: Result<PaneId, Error>)
        ensures
            r is Ok <==> is_opaque_id(PANE_PREFIX, input@),
            r matches Ok(id) ==> id@ == input@,
            r matches Err(e) ==> whole_id_spec(PANE_PREFIX, input@) matches Err(f)
                && is_parse_error(e, "PaneId"@, "##{pane_id}"@, f),
    {
        PaneId::parse(input)
    }
}

/// Read the pane id that `input` starts with, and leave what follows it.
pub fn pane_id(input: &str) -> (r: Result<(&str, PaneId), GrammarError>)
    ensures
        match r {
            Ok((rest, id)) => opaque_id_spec(PANE_PREFIX, input@) == Ok::<
                (Seq<char>, Seq<char>),
                GrammarFailure,
            >((rest@, id@)),
            Err(e) => opaque_id_spec(PANE_PREFIX, input@) == Err::<
                (Seq<char>, Seq<char>),
                GrammarFailure,
            >(e@),
        },
{
    match opaque_id(PANE_PREFIX, input) {
        Ok((rest, id)) => Ok((rest, PaneId(id.to_owned()))),
        Err(e) => Err(e),
    }
}

} // verus!
