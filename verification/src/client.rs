//! The browser-side state machine.
//!
//! The UI keeps a [`Model`], feeds every event through [`update`], and asks
//! its transport layer to issue the request that the returned [`Cmd`]
//! names. When a request completes, its outcome comes back as another
//! event. Rendering and the HTTP calls themselves live outside the
//! library; the decisions all stand here.

use vstd::prelude::*;

verus! {

/// What the UI remembers between events: the last list the server sent,
/// the text typed into the input field, and the last transport error.
#[derive(Debug)]
pub struct Model {
    pub items: Vec<String>,
    pub new_value: String,
    pub error: Option<String>,
}

/// An event the UI reacts to: a user action, or the outcome of a request,
/// carrying either the list the server answered with or an error text.
#[derive(Debug)]
pub enum Msg {
    Save,
    Clear,
    Remove(String),
    TextEntered(String),
    FetchedItems(Result<Vec<String>, String>),
    SaveCompleted(Result<Vec<String>, String>),
    ClearCompleted(Result<Vec<String>, String>),
    RemoveCompleted(Result<Vec<String>, String>),
}

/// The request the transport layer is asked to issue next, if any.
#[derive(Debug, PartialEq)]
pub enum Cmd {
    Idle,
    FetchAll,
    SaveItem(String),
    RemoveItem(String),
    ClearAll,
}

/// Turns one event into the next UI state and the request to issue.
///
/// Save submits the typed text and empties the input field; Clear and
/// Remove ask for the matching server operation; TextEntered tracks the
/// input field. A completed request either replaces the cached list with
/// the server's answer or records the error, leaving the list at its
/// last-known state.
pub fn update(model: &mut Model, msg: Msg) -> (cmd: Cmd)
    ensures
        match msg {
            Msg::Save => {
                &&& cmd matches Cmd::SaveItem(v) && v@ == old(model).new_value@
                &&& final(model).new_value@ == Seq::<char>::empty()
                &&& final(model).items == old(model).items
                &&& final(model).error == old(model).error
            },
            Msg::Clear => cmd == Cmd::ClearAll && *final(model) == *old(model),
            Msg::Remove(v) => cmd == Cmd::RemoveItem(v) && *final(model) == *old(model),
            Msg::TextEntered(v) => {
                &&& cmd == Cmd::Idle
                &&& final(model).new_value == v
                &&& final(model).items == old(model).items
                &&& final(model).error == old(model).error
            },
            Msg::FetchedItems(r) => completed_spec(*old(model), *final(model), cmd, r),
            Msg::SaveCompleted(r) => completed_spec(*old(model), *final(model), cmd, r),
            Msg::ClearCompleted(r) => completed_spec(*old(model), *final(model), cmd, r),
            Msg::RemoveCompleted(r) => completed_spec(*old(model), *final(model), cmd, r),
        },
{
    match msg {
        Msg::Save => {
            let value = model.new_value.clone();
            model.new_value = String::new();
            Cmd::SaveItem(value)
        },
        Msg::Clear => Cmd::ClearAll,
        Msg::Remove(value) => Cmd::RemoveItem(value),
        Msg::TextEntered(value) => {
            model.new_value = value;
            Cmd::Idle
        },
        Msg::FetchedItems(r) => apply_completed(model, r),
        Msg::SaveCompleted(r) => apply_completed(model, r),
        Msg::ClearCompleted(r) => apply_completed(model, r),
        Msg::RemoveCompleted(r) => apply_completed(model, r),
    }
}

/// What finishing a request does to the model: a success replaces the
/// cached list with the server's answer, a failure records the error text;
/// neither touches the input field, and no further request is issued.
pub open spec fn completed_spec(
    before: Model,
    after: Model,
    cmd: Cmd,
    r: Result<Vec<String>, String>,
) -> bool {
    &&& cmd == Cmd::Idle
    &&& after.new_value == before.new_value
    &&& match r {
        Ok(items) => after.items == items && after.error == before.error,
        Err(e) => after.error == Some(e) && after.items == before.items,
    }
}

fn apply_completed(model: &mut Model, r: Result<Vec<String>, String>) -> (cmd: Cmd)
    ensures
        completed_spec(*old(model), *final(model), cmd, r),
{
    match r {
        Ok(items) => {
            model.items = items;
        },
        Err(e) => {
            model.error = Some(e);
        },
    }
    Cmd::Idle
}

/// The state the UI starts in, and the initial fetch of the current list.
pub fn init() -> (r: (Model, Cmd))
    ensures
        r.0.items@ == Seq::<String>::empty(),
        r.0.new_value@ == Seq::<char>::empty(),
        r.0.error is None,
        r.1 == Cmd::FetchAll,
{
    (Model { items: Vec::new(), new_value: String::new(), error: None }, Cmd::FetchAll)
}

} // verus!
