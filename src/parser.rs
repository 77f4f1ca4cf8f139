//! The event stream: framing, packet headers, chat payloads and the packet loop.
pub mod chat;
pub mod error;
pub mod inflate;
pub mod laws;
pub mod packet;
pub mod probe;
pub mod replay;
pub mod stream;
pub mod varsize;

pub use self::error::DecodeError;
pub use self::stream::ByteStream;
pub use self::varsize::read_variable_length_size;
pub use self::chat::{parse_chat_packet, ChatInfo};
pub use self::packet::{read_packet_header_from_stream, PacketInfo, ReplayPacketType};
pub use self::replay::{
    process_decoded_stream, process_replay_data, process_replay_stream,
    process_replay_stream_with_header, ParsedReplay,
};
pub use self::probe::try_parse_chat_at_offset;
pub use crate::results::{
    parse_replay_results_json, PlayerData, PlayerInfo, PlayerReplayData, ReplayResults,
};
