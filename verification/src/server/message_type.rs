use crate::frame::frame_types::Opcode;
use crate::utils::lossy_text::{text_from_utf8_lossy, utf8_lossy};
use vstd::prelude::*;

verus! {

/// What a data frame hands to the application.
#[derive(Debug, Clone, PartialEq, Eq)]
pub enum Types {
    String(String),
    Binary(Vec<u8>),
}

/// A message as a mathematical value.
pub enum TypesView {
    String(Seq<char>),
    Binary(Seq<u8>),
}

impl View for Types {
    type V = TypesView;

    open spec fn view(&self) -> TypesView {
        match self {
            Types::String(text) => TypesView::String(text@),
            Types::Binary(data) => TypesView::Binary(data@),
        }
    }
}

/// The message that a payload under `opcode` stands for: text read leniently
/// as UTF-8 for a text frame, the bytes as they are for a binary frame, and
/// none for any other frame.
pub open spec fn message_of(opcode: Opcode, data: Seq<u8>) -> Option<TypesView> {
    match opcode {
        Opcode::Text => Some(TypesView::String(utf8_lossy(data))),
        Opcode::Binary => Some(TypesView::Binary(data)),
        _ => None,
    }
}

impl Types {
    /// The message that the payload of a data frame stands for; none for a
    /// frame that carries no data for the application.
    pub fn from_opcode(opcode: Opcode, data: Vec<u8>) -> (message: Option<Self>)
        ensures
            match message_of(opcode, data@) {
                Some(view) => message is Some && message.unwrap()@ == view,
                None => message is None,
            },
    {
        match opcode {
            Opcode::Text => Some(Self::String(text_from_utf8_lossy(data.as_slice()))),
            Opcode::Binary => Some(Self::Binary(data)),
            _ => None,
        }
    }
}

} // verus!
