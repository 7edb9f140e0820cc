//! What can go wrong, by kind.

use vstd::prelude::*;
use vstd::string::StringExecFns;

use crate::text::{decimal, decimal_text};

verus! {

/// A field of a reply, by the name that the server gives it.
#[derive(Clone, Copy, Debug, PartialEq, Eq, Structural)]
pub enum Field {
    Status,
    Payload,
    Token,
    Name,
    Zones,
    ZoneId,
    Groups,
    Id,
    IsPresent,
    IsValid,
    OutputMode,
    ButtonActiveGroup,
    Circuits,
    Dsid,
    ReachableScenes,
    Scene,
    SceneId,
    DontCare,
    LocalPrio,
    SpecialMode,
    FlashMode,
    LedconIndex,
    Offset,
    Value,
    Events,
    Properties,
    GroupId,
    OriginToken,
    OriginDsuid,
    CallOrigin,
}

/// A reply that reached the client but does not say what it should.
#[derive(Clone, Copy, Debug, PartialEq, Eq, Structural)]
pub enum Fault {
    /// The server answered with `ok` set to false.
    Refused,
    /// An expected field is absent.
    Missing(Field),
    /// A field holds a value of the wrong type or out of its range.
    WrongType(Field),
    /// The reply speaks of another output than the one that was asked for.
    Offset,
    /// The action has no scene number, so it cannot be called.
    NoScene,
}

/// Something that was asked for by id and is not in the model.
#[derive(Clone, Copy, Debug, PartialEq, Eq, Structural)]
pub enum Missing {
    /// No zone has this id.
    Zone(usize),
    /// The zone has no group with this id.
    Group(usize),
    /// The group with this id has no device.
    Device(usize),
}

/// The outcome of an operation that failed.
#[derive(Clone, Copy, Debug, PartialEq, Eq, Structural)]
pub enum Error {
    /// The request was not answered: network, TLS or timeout.
    Transport,
    /// The answer breaks the protocol.
    Protocol(Fault),
    /// The model holds nothing under the id that was given.
    Lookup(Missing),
    /// The shared model could not be acquired.
    Concurrency,
}

impl Field {
    /// The name of the field on the wire.
    pub open spec fn wire_name(self) -> Seq<char> {
        match self {
            Field::Status => "ok"@,
            Field::Payload => "result"@,
            Field::Token => "token"@,
            Field::Name => "name"@,
            Field::Zones => "zones"@,
            Field::ZoneId => "zoneID"@,
            Field::Groups => "groups"@,
            Field::Id => "id"@,
            Field::IsPresent => "isPresent"@,
            Field::IsValid => "isValid"@,
            Field::OutputMode => "outputMode"@,
            Field::ButtonActiveGroup => "buttonActiveGroup"@,
            Field::Circuits => "circuits"@,
            Field::Dsid => "dsid"@,
            Field::ReachableScenes => "reachableScenes"@,
            Field::Scene => "scene"@,
            Field::SceneId => "sceneID"@,
            Field::DontCare => "dontCare"@,
            Field::LocalPrio => "localPrio"@,
            Field::SpecialMode => "specialMode"@,
            Field::FlashMode => "flashMode"@,
            Field::LedconIndex => "ledconIndex"@,
            Field::Offset => "offset"@,
            Field::Value => "value"@,
            Field::Events => "events"@,
            Field::Properties => "properties"@,
            Field::GroupId => "groupID"@,
            Field::OriginToken => "originToken"@,
            Field::OriginDsuid => "originDSUID"@,
            Field::CallOrigin => "callOrigin"@,
        }
    }

    /// The name under which the field stands in a reply.
    pub fn name(&self) -> (r: &'static str)
        ensures
            r@ == self.wire_name(),
    {
        match self {
            Field::Status => "ok",
            Field::Payload => "result",
            Field::Token => "token",
            Field::Name => "name",
            Field::Zones => "zones",
            Field::ZoneId => "zoneID",
            Field::Groups => "groups",
            Field::Id => "id",
            Field::IsPresent => "isPresent",
            Field::IsValid => "isValid",
            Field::OutputMode => "outputMode",
            Field::ButtonActiveGroup => "buttonActiveGroup",
            Field::Circuits => "circuits",
            Field::Dsid => "dsid",
            Field::ReachableScenes => "reachableScenes",
            Field::Scene => "scene",
            Field::SceneId => "sceneID",
            Field::DontCare => "dontCare",
            Field::LocalPrio => "localPrio",
            Field::SpecialMode => "specialMode",
            Field::FlashMode => "flashMode",
            Field::LedconIndex => "ledconIndex",
            Field::Offset => "offset",
            Field::Value => "value",
            Field::Events => "events",
            Field::Properties => "properties",
            Field::GroupId => "groupID",
            Field::OriginToken => "originToken",
            Field::OriginDsuid => "originDSUID",
            Field::CallOrigin => "callOrigin",
        }
    }
}

/// What an error says to the user. An error of the protocol names the
/// field that it is about, a failed lookup the id.
pub open spec fn message_of(e: Error) -> Seq<char> {
    match e {
        Error::Transport => "The server could not be reached"@,
        Error::Protocol(Fault::Refused) => "Request failed, no ok code received"@,
        Error::Protocol(Fault::Missing(field)) => "No "@ + field.wire_name()
            + " in Json response"@,
        Error::Protocol(Fault::WrongType(field)) => "The "@ + field.wire_name()
            + " in the Json response has the wrong type"@,
        Error::Protocol(Fault::Offset) => "Wrong offset returned"@,
        Error::Protocol(Fault::NoScene) => "Action can't be transformed to scene command"@,
        Error::Lookup(Missing::Zone(id)) => "No zone with id "@ + decimal_text(id as nat),
        Error::Lookup(Missing::Group(id)) => "No group with id "@ + decimal_text(id as nat),
        Error::Lookup(Missing::Device(id)) => "No devices in group "@ + decimal_text(id as nat),
        Error::Concurrency => "The shared model could not be acquired"@,
    }
}

impl Error {
    /// The error in words.
    pub fn message(&self) -> (r: String)
        ensures
            r@ == message_of(*self),
    {
        match self {
            Error::Transport => "The server could not be reached".to_string(),
            Error::Protocol(Fault::Refused) => "Request failed, no ok code received".to_string(),
            Error::Protocol(Fault::Missing(field)) => {
                let mut out = "No ".to_string();
                out.append(field.name());
                out.append(" in Json response");
                out
            },
            Error::Protocol(Fault::WrongType(field)) => {
                let mut out = "The ".to_string();
                out.append(field.name());
                out.append(" in the Json response has the wrong type");
                out
            },
            Error::Protocol(Fault::Offset) => "Wrong offset returned".to_string(),
            Error::Protocol(Fault::NoScene) => "Action can't be transformed to scene command".to_string(),
            Error::Lookup(Missing::Zone(id)) => {
                let mut out = "No zone with id ".to_string();
                out.append(decimal(*id).as_str());
                out
            },
            Error::Lookup(Missing::Group(id)) => {
                let mut out = "No group with id ".to_string();
                out.append(decimal(*id).as_str());
                out
            },
            Error::Lookup(Missing::Device(id)) => {
                let mut out = "No devices in group ".to_string();
                out.append(decimal(*id).as_str());
                out
            },
            Error::Concurrency => "The shared model could not be acquired".to_string(),
        }
    }
}

} // verus!
