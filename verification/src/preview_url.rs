//! The content of an `org.matrix.room.preview_urls` state event: whether
//! URL previews are disabled by default for a room.

use vstd::prelude::*;
use crate::json::JsonV;
use crate::json::JsonVal;
use crate::json::field_lookup;
use crate::json::json_field_views;
use crate::json::spec_field_lookup;
use crate::unsigned::StateEventContent;

verus! {

/// The content of an `org.matrix.room.preview_urls` event.
#[derive(Clone, Copy, PartialEq, Eq, Structural, Debug)]
pub struct RoomPreviewUrlsEventContent {
    /// Whether URL previews are disabled for the entire room.
    pub disabled: bool,
}

impl RoomPreviewUrlsEventContent {
    /// Creates the content with the given setting; previews are enabled
    /// when `disabled` is unset in the wire form.
    pub fn new(disabled: bool) -> (r: Self)
        ensures
            r.disabled == disabled,
    {
        RoomPreviewUrlsEventContent { disabled }
    }
}

impl StateEventContent for RoomPreviewUrlsEventContent {
    /// The content the fields denote: `disabled` as given, defaulting
    /// to enabled previews when the field is absent; any other shape
    /// of the field denotes no content.
    open spec fn spec_parse(event_type: Seq<char>, fields: Seq<(Seq<char>, JsonV)>) -> Option<
        Self,
    > {
        match spec_field_lookup(fields, "disabled"@) {
            Option::None => Option::Some(RoomPreviewUrlsEventContent { disabled: false }),
            Option::Some(JsonV::Bool(b)) => Option::Some(RoomPreviewUrlsEventContent {
                disabled: b,
            }),
            _ => Option::None,
        }
    }

    fn from_json_fields(event_type: &str, fields: &Vec<(String, JsonVal)>) -> (r: Option<Self>) {
        match field_lookup(fields, "disabled") {
            Option::None => Some(RoomPreviewUrlsEventContent { disabled: false }),
            Option::Some(JsonVal::Bool(b)) => Some(RoomPreviewUrlsEventContent { disabled: *b }),
            Option::Some(_) => None,
        }
    }
}

} // verus!
