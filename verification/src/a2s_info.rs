//! The A2S_INFO message decoder: one pass over the logical response
//! reads the server's metadata fields in their fixed wire order.
use vstd::prelude::*;

use crate::misc::ByteCursor;
use crate::misc::FromBytestream;
use crate::misc::ServerQueryError;
use crate::misc::decode_step;
use crate::misc::le_i16_at;
use crate::misc::lossy_utf8;
use crate::misc::str_body;
use crate::types::Environment;
use crate::types::ServerType;

verus! {

/// A decoded A2S_INFO reply. The fields stand in wire order; that order
/// is part of the protocol, not incidental.
#[derive(Debug)]
pub struct A2SInfo {
    pub protocol: u8,
    pub name: String,
    pub map: String,
    pub folder: String,
    pub game: String,
    pub game_id: i16,
    pub players: u8,
    pub max_players: u8,
    pub bots: u8,
    pub server_type: ServerType,
    pub environment: Environment,
    pub password: bool,
    pub vac: bool,
}

impl A2SInfo {
    /// The decode state after the protocol-version byte.
    pub open spec fn after_protocol(data: Seq<u8>, pos: int) -> (bool, int) {
        decode_step::<u8>(data, (true, pos))
    }

    pub open spec fn after_name(data: Seq<u8>, pos: int) -> (bool, int) {
        decode_step::<String>(data, Self::after_protocol(data, pos))
    }

    pub open spec fn after_map(data: Seq<u8>, pos: int) -> (bool, int) {
        decode_step::<String>(data, Self::after_name(data, pos))
    }

    pub open spec fn after_folder(data: Seq<u8>, pos: int) -> (bool, int) {
        decode_step::<String>(data, Self::after_map(data, pos))
    }

    pub open spec fn after_game(data: Seq<u8>, pos: int) -> (bool, int) {
        decode_step::<String>(data, Self::after_folder(data, pos))
    }

    pub open spec fn after_game_id(data: Seq<u8>, pos: int) -> (bool, int) {
        decode_step::<i16>(data, Self::after_game(data, pos))
    }

    pub open spec fn after_players(data: Seq<u8>, pos: int) -> (bool, int) {
        decode_step::<u8>(data, Self::after_game_id(data, pos))
    }

    pub open spec fn after_max_players(data: Seq<u8>, pos: int) -> (bool, int) {
        decode_step::<u8>(data, Self::after_players(data, pos))
    }

    pub open spec fn after_bots(data: Seq<u8>, pos: int) -> (bool, int) {
        decode_step::<u8>(data, Self::after_max_players(data, pos))
    }

    pub open spec fn after_server_type(data: Seq<u8>, pos: int) -> (bool, int) {
        decode_step::<ServerType>(data, Self::after_bots(data, pos))
    }

    pub open spec fn after_environment(data: Seq<u8>, pos: int) -> (bool, int) {
        decode_step::<Environment>(data, Self::after_server_type(data, pos))
    }

    pub open spec fn after_password(data: Seq<u8>, pos: int) -> (bool, int) {
        decode_step::<bool>(data, Self::after_environment(data, pos))
    }

    /// The decode state after the VAC flag, the record's last field.
    pub open spec fn after_vac(data: Seq<u8>, pos: int) -> (bool, int) {
        decode_step::<bool>(data, Self::after_password(data, pos))
    }

    /// Decodes a whole A2S_INFO payload (the logical response without its
    /// response-type marker). Succeeds exactly when every field is
    /// present and both tag bytes are recognized.
    pub fn decode(payload: Vec<u8>) -> (r: Result<A2SInfo, ServerQueryError>)
        ensures
            r is Ok <==> <A2SInfo as FromBytestream>::decode_ok(payload@, 0),
            (r matches Ok(v) ==> <A2SInfo as FromBytestream>::decodes_to(payload@, 0, v)),
            r is Err ==> r == Err::<A2SInfo, ServerQueryError>(ServerQueryError::InvalidData),
    {
        let mut cur = ByteCursor::new(payload);
        match A2SInfo::next_data_le(&mut cur) {
            Some(v) => Ok(v),
            None => Err(ServerQueryError::InvalidData),
        }
    }
}

impl FromBytestream for A2SInfo {
    open spec fn decode_ok(data: Seq<u8>, pos: int) -> bool {
        Self::after_vac(data, pos).0
    }

    open spec fn decode_end(data: Seq<u8>, pos: int) -> int {
        Self::after_vac(data, pos).1
    }

    open spec fn decodes_to(data: Seq<u8>, pos: int, v: A2SInfo) -> bool {
        &&& pos + 1 <= data.len() && v.protocol == data[pos]
        &&& v.name@ == lossy_utf8(str_body(data, Self::after_protocol(data, pos).1))
        &&& v.map@ == lossy_utf8(str_body(data, Self::after_name(data, pos).1))
        &&& v.folder@ == lossy_utf8(str_body(data, Self::after_map(data, pos).1))
        &&& v.game@ == lossy_utf8(str_body(data, Self::after_folder(data, pos).1))
        &&& v.game_id as int == le_i16_at(data, Self::after_game(data, pos).1)
        &&& <u8 as FromBytestream>::decodes_to(data, Self::after_game_id(data, pos).1, v.players)
        &&& <u8 as FromBytestream>::decodes_to(
            data,
            Self::after_players(data, pos).1,
            v.max_players,
        )
        &&& <u8 as FromBytestream>::decodes_to(data, Self::after_max_players(data, pos).1, v.bots)
        &&& <ServerType as FromBytestream>::decodes_to(
            data,
            Self::after_bots(data, pos).1,
            v.server_type,
        )
        &&& <Environment as FromBytestream>::decodes_to(
            data,
            Self::after_server_type(data, pos).1,
            v.environment,
        )
        &&& <bool as FromBytestream>::decodes_to(
            data,
            Self::after_environment(data, pos).1,
            v.password,
        )
        &&& <bool as FromBytestream>::decodes_to(data, Self::after_password(data, pos).1, v.vac)
    }

    fn next_data_le(cur: &mut ByteCursor) -> (r: Option<A2SInfo>) {
        let protocol = match u8::next_data_le(cur) {
            Some(v) => v,
            None => {
                return None;
            },
        };
        let name = match String::next_data_le(cur) {
            Some(v) => v,
            None => {
                return None;
            },
        };
        let map = match String::next_data_le(cur) {
            Some(v) => v,
            None => {
                return None;
            },
        };
        let folder = match String::next_data_le(cur) {
            Some(v) => v,
            None => {
                return None;
            },
        };
        let game = match String::next_data_le(cur) {
            Some(v) => v,
            None => {
                return None;
            },
        };
        let game_id = match i16::next_data_le(cur) {
            Some(v) => v,
            None => {
                return None;
            },
        };
        let players = match u8::next_data_le(cur) {
            Some(v) => v,
            None => {
                return None;
            },
        };
        let max_players = match u8::next_data_le(cur) {
            Some(v) => v,
            None => {
                return None;
            },
        };
        let bots = match u8::next_data_le(cur) {
            Some(v) => v,
            None => {
                return None;
            },
        };
        let server_type = match ServerType::next_data_le(cur) {
            Some(v) => v,
            None => {
                return None;
            },
        };
        let environment = match Environment::next_data_le(cur) {
            Some(v) => v,
            None => {
                return None;
            },
        };
        let password = match bool::next_data_le(cur) {
            Some(v) => v,
            None => {
                return None;
            },
        };
        let vac = match bool::next_data_le(cur) {
            Some(v) => v,
            None => {
                return None;
            },
        };
        Some(
            A2SInfo {
                protocol,
                name,
                map,
                folder,
                game,
                game_id,
                players,
                max_players,
                bots,
                server_type,
                environment,
                password,
                vac,
            },
        )
    }
}

} // verus!
