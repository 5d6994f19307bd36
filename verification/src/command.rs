//! One declarative edit operation in a schema's construction history.
//! Commands are immutable; a sequence of commands is the edit log.

use vstd::prelude::*;
use crate::value::{spec_scalar, Value};

verus! {

/// What a command does.
#[derive(Clone, Copy, Debug, PartialEq, Eq, Structural)]
pub enum CommandType {
    From,
    Add,
    Remove,
    Modify,
}

/// Which overlay kind a command addresses.
#[derive(Clone, Copy, Debug, PartialEq, Eq, Structural)]
pub enum OverlayType {
    Meta,
    Label,
    Information,
    CharacterEncoding,
    Conformance,
    Entry,
    FormLayout,
}

/// Which structural unit a command addresses.
#[derive(Clone, Copy, Debug, PartialEq, Eq, Structural)]
pub enum ObjectKind {
    CaptureBase,
    Overlay(OverlayType),
}

/// The payload of a command: ordered attribute and property maps.
pub struct Content {
    pub attributes: Option<Vec<(String, Value)>>,
    pub properties: Option<Vec<(String, Value)>>,
}

/// One edit command.
pub struct Command {
    pub kind: CommandType,
    pub object_kind: ObjectKind,
    pub content: Option<Content>,
}

/// The view of a content map: each value reduced to its scalar form,
/// or nothing where it is not a scalar.
pub open spec fn content_pairs_view(s: Seq<(String, Value)>) -> Seq<(Seq<char>, Option<Seq<char>>)> {
    Seq::new(s.len(), |i: int| (s[i].0@, spec_scalar(s[i].1)))
}

/// The view of an optional content map.
pub open spec fn content_part_view(o: Option<Vec<(String, Value)>>) -> Option<
    Seq<(Seq<char>, Option<Seq<char>>)>,
> {
    match o {
        Some(v) => Some(content_pairs_view(v@)),
        None => None,
    }
}

/// The mathematical content of a command, as far as the interpreter
/// reads it.
#[verifier::ext_equal]
pub struct CmdModel {
    pub kind: CommandType,
    pub object_kind: ObjectKind,
    pub attributes: Option<Seq<(Seq<char>, Option<Seq<char>>)>>,
    pub properties: Option<Seq<(Seq<char>, Option<Seq<char>>)>>,
}

/// The model of a command value.
pub open spec fn cmd_model(c: Command) -> CmdModel {
    CmdModel {
        kind: c.kind,
        object_kind: c.object_kind,
        attributes: match c.content {
            Some(ct) => content_part_view(ct.attributes),
            None => None,
        },
        properties: match c.content {
            Some(ct) => content_part_view(ct.properties),
            None => None,
        },
    }
}

} // verus!
