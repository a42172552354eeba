pub mod assembler;
pub mod assembly_laws;
pub mod codec_laws;
pub mod frame_types;

pub use assembler::{AssemblyError, AssemblyState, FrameAssembler, Signal};
pub use frame_types::{DecodeError, Frame, FrameView, HeaderInfo, Opcode, PayloadLen};
