//! The action configuration: a JSON document of the form
//! `{"actions": {"<tag>": {"command": "<template>", "post_exec": ["<template>", ...]}}}`,
//! where `post_exec` may be left out.

use vstd::prelude::*;
use vstd::string::*;
use crate::error::{ErrorView, ExecutionError};
use crate::json::{json_members, json_members_of, json_string, json_string_list, json_string_list_of, json_string_of, pairs_view, strings_view};

verus! {

/// One configured action: the main command template and the templates run
/// after it, in order.
pub struct ActionConfig {
    pub command: String,
    pub post_exec: Vec<String>,
}

/// The value of the first member named `key`.
pub open spec fn lookup(ms: Seq<(Seq<char>, Seq<char>)>, key: Seq<char>) -> Option<Seq<char>>
    decreases ms.len(),
{
    if ms.len() == 0 {
        None
    } else if ms[0].0 == key {
        Some(ms[0].1)
    } else {
        lookup(ms.drop_first(), key)
    }
}

/// The members of the `actions` object of the configuration `text`, each
/// value as JSON text; `None` when `text` is not an object or has no
/// `actions` object.
pub open spec fn actions_of(text: Seq<char>) -> Option<Seq<(Seq<char>, Seq<char>)>> {
    match json_members_of(text) {
        None => None,
        Some(top) => match lookup(top, "actions"@) {
            None => None,
            Some(a) => json_members_of(a),
        },
    }
}

/// The command template and post-exec templates of the action entry written
/// in `entry`; `None` when it is not an object with a string `command` and,
/// if present, an array of strings `post_exec`.
pub open spec fn action_of(entry: Seq<char>) -> Option<(Seq<char>, Seq<Seq<char>>)> {
    match json_members_of(entry) {
        None => None,
        Some(fields) => match lookup(fields, "command"@) {
            None => None,
            Some(c) => match json_string_of(c) {
                None => None,
                Some(command) => match lookup(fields, "post_exec"@) {
                    None => Some((command, Seq::empty())),
                    Some(p) => match json_string_list_of(p) {
                        None => None,
                        Some(post) => Some((command, post)),
                    },
                },
            },
        },
    }
}

/// The action configured under `tag` in the configuration `text`, or why
/// there is none.
pub open spec fn resolve_text(text: Seq<char>, tag: Seq<char>) -> Result<(Seq<char>, Seq<Seq<char>>), ErrorView> {
    match actions_of(text) {
        None => Err(ErrorView::ConfigParseError),
        Some(actions) => match lookup(actions, tag) {
            None => Err(ErrorView::ActionNotDefined(tag)),
            Some(entry) => match action_of(entry) {
                None => Err(ErrorView::ConfigParseError),
                Some(a) => Ok(a),
            },
        },
    }
}

/// The position of the first member named `key`.
fn find_member(ms: &Vec<(String, String)>, key: &String) -> (r: Option<usize>)
    ensures
        r is None ==> lookup(pairs_view(ms@), key@) is None,
        r is Some ==> r->0 < ms.len() && lookup(pairs_view(ms@), key@) == Some(ms@[r->0 as int].1@),
{
    let ghost pv = pairs_view(ms@);
    let mut i: usize = 0;
    assert(pv.skip(0) =~= pv);
    while i < ms.len()
        invariant
            i <= ms.len(),
            pv == pairs_view(ms@),
            lookup(pv, key@) == lookup(pv.skip(i as int), key@),
        decreases ms.len() - i,
    {
        assert(pv.skip(i as int)[0] == (ms@[i as int].0@, ms@[i as int].1@));
        if ms[i].0 == *key {
            return Some(i);
        }
        assert(pv.skip(i as int).drop_first() =~= pv.skip(i + 1));
        i = i + 1;
    }
    None
}

/// The value of the member named `key` of the object written in `text`:
/// `None` when `text` is not an object or has no such member.
fn member_text(text: &str, key: &str) -> (r: Option<String>)
    ensures
        r is None ==> json_members_of(text@) is None || lookup(json_members_of(text@)->0, key@) is None,
        r is Some ==> json_members_of(text@) is Some && lookup(json_members_of(text@)->0, key@)
            == Some(r->0@),
{
    match json_members(text) {
        None => None,
        Some(ms) => {
            let k = String::from_str(key);
            match find_member(&ms, &k) {
                None => None,
                Some(i) => Some(ms[i].1.clone()),
            }
        },
    }
}

/// The members of the `actions` object of the configuration `text`.
pub(crate) fn actions(text: &str) -> (r: Option<Vec<(String, String)>>)
    ensures
        r is None <==> actions_of(text@) is None,
        r is Some ==> pairs_view(r->0@) == actions_of(text@)->0,
{
    match member_text(text, "actions") {
        None => None,
        Some(a) => json_members(a.as_str()),
    }
}

impl ActionConfig {
    /// Reads an action entry, written as JSON text.
    pub fn parse(entry: &str) -> (r: Option<ActionConfig>)
        ensures
            r is None <==> action_of(entry@) is None,
            r is Some ==> (r->0.command@, strings_view(r->0.post_exec@)) == action_of(entry@)->0,
    {
        let c = member_text(entry, "command");
        match c {
            None => None,
            Some(c) => match json_string(c.as_str()) {
                None => None,
                Some(command) => match member_text(entry, "post_exec") {
                    None => {
                        let post_exec: Vec<String> = Vec::new();
                        assert(strings_view(post_exec@) =~= Seq::<Seq<char>>::empty());
                        Some(ActionConfig { command, post_exec })
                    },
                    Some(p) => match json_string_list(p.as_str()) {
                        None => None,
                        Some(post_exec) => Some(ActionConfig { command, post_exec }),
                    },
                },
            },
        }
    }
}

/// Finds the action configured under `tag` in the configuration `text`.
pub fn resolve(text: &str, tag: &str) -> (r: Result<ActionConfig, ExecutionError>)
    ensures
        match resolve_text(text@, tag@) {
            Ok(a) => r is Ok && (r->Ok_0.command@, strings_view(r->Ok_0.post_exec@)) == a,
            Err(e) => r is Err && r->Err_0@ == e,
        },
{
    match actions(text) {
        None => Err(ExecutionError::ConfigParseError),
        Some(acts) => {
            let t = String::from_str(tag);
            match find_member(&acts, &t) {
                None => Err(ExecutionError::ActionNotDefined(t)),
                Some(i) => match ActionConfig::parse(acts[i].1.as_str()) {
                    None => Err(ExecutionError::ConfigParseError),
                    Some(a) => Ok(a),
                },
            }
        },
    }
}

} // verus!
