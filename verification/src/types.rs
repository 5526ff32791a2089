//! The decoded record types of the protocol: the tag-byte enumerations
//! and the per-player and per-rule records.
use vstd::prelude::*;

use crate::misc::ByteCursor;
use crate::misc::FromBytestream;
use crate::misc::decode_step;
use crate::misc::lossy_utf8;
use crate::misc::str_body;

verus! {

/// How a server is run, decoded from its tag byte.
#[derive(Clone, Copy, Debug, PartialEq, Eq, Structural)]
pub enum ServerType {
    Dedicated,
    NonDedicated,
    Proxy,
}

/// The platform a server runs on, decoded from its tag byte. Both `m`
/// and the legacy `o` tag mean Mac.
#[derive(Clone, Copy, Debug, PartialEq, Eq, Structural)]
pub enum Environment {
    Linux,
    Windows,
    Mac,
}

impl FromBytestream for ServerType {
    open spec fn decode_ok(data: Seq<u8>, pos: int) -> bool {
        pos + 1 <= data.len() && (data[pos] == 0x64 || data[pos] == 0x6c || data[pos] == 0x70)
    }

    open spec fn decode_end(data: Seq<u8>, pos: int) -> int {
        if pos + 1 <= data.len() {
            pos + 1
        } else {
            pos
        }
    }

    open spec fn decodes_to(data: Seq<u8>, pos: int, v: ServerType) -> bool {
        pos + 1 <= data.len() && match v {
            ServerType::Dedicated => data[pos] == 0x64,
            ServerType::NonDedicated => data[pos] == 0x6c,
            ServerType::Proxy => data[pos] == 0x70,
        }
    }

    fn next_data_le(cur: &mut ByteCursor) -> (r: Option<ServerType>) {
        match u8::next_data_le(cur) {
            Some(b) => {
                if b == 0x64 {
                    Some(ServerType::Dedicated)
                } else if b == 0x6c {
                    Some(ServerType::NonDedicated)
                } else if b == 0x70 {
                    Some(ServerType::Proxy)
                } else {
                    None
                }
            },
            None => None,
        }
    }
}

impl FromBytestream for Environment {
    open spec fn decode_ok(data: Seq<u8>, pos: int) -> bool {
        pos + 1 <= data.len() && (data[pos] == 0x6c || data[pos] == 0x77 || data[pos] == 0x6d
            || data[pos] == 0x6f)
    }

    open spec fn decode_end(data: Seq<u8>, pos: int) -> int {
        if pos + 1 <= data.len() {
            pos + 1
        } else {
            pos
        }
    }

    open spec fn decodes_to(data: Seq<u8>, pos: int, v: Environment) -> bool {
        pos + 1 <= data.len() && match v {
            Environment::Linux => data[pos] == 0x6c,
            Environment::Windows => data[pos] == 0x77,
            Environment::Mac => data[pos] == 0x6d || data[pos] == 0x6f,
        }
    }

    fn next_data_le(cur: &mut ByteCursor) -> (r: Option<Environment>) {
        match u8::next_data_le(cur) {
            Some(b) => {
                if b == 0x6c {
                    Some(Environment::Linux)
                } else if b == 0x77 {
                    Some(Environment::Windows)
                } else if b == 0x6d || b == 0x6f {
                    Some(Environment::Mac)
                } else {
                    None
                }
            },
            None => None,
        }
    }
}

/// One connected player. The wire carries the duration as a 32-bit IEEE
/// float; `duration_bits` holds its raw little-endian bits, for the
/// caller to interpret.
#[derive(Debug)]
pub struct Player {
    pub name: String,
    pub score: i32,
    pub duration_bits: u32,
}

impl Player {
    /// The decode state after this record's discarded index byte.
    pub open spec fn after_index(data: Seq<u8>, pos: int) -> (bool, int) {
        decode_step::<u8>(data, (true, pos))
    }

    /// ... after the player's name.
    pub open spec fn after_name(data: Seq<u8>, pos: int) -> (bool, int) {
        decode_step::<String>(data, Self::after_index(data, pos))
    }

    /// ... after the player's score.
    pub open spec fn after_score(data: Seq<u8>, pos: int) -> (bool, int) {
        decode_step::<i32>(data, Self::after_name(data, pos))
    }

    /// ... after the player's duration, the record's last field.
    pub open spec fn after_duration(data: Seq<u8>, pos: int) -> (bool, int) {
        decode_step::<u32>(data, Self::after_score(data, pos))
    }
}

impl FromBytestream for Player {
    open spec fn decode_ok(data: Seq<u8>, pos: int) -> bool {
        Self::after_duration(data, pos).0
    }

    open spec fn decode_end(data: Seq<u8>, pos: int) -> int {
        Self::after_duration(data, pos).1
    }

    open spec fn decodes_to(data: Seq<u8>, pos: int, v: Player) -> bool {
        &&& <String as FromBytestream>::decodes_to(data, Self::after_index(data, pos).1, v.name)
        &&& <i32 as FromBytestream>::decodes_to(data, Self::after_name(data, pos).1, v.score)
        &&& <u32 as FromBytestream>::decodes_to(
            data,
            Self::after_score(data, pos).1,
            v.duration_bits,
        )
    }

    fn next_data_le(cur: &mut ByteCursor) -> (r: Option<Player>) {
        let _index = match u8::next_data_le(cur) {
            Some(v) => v,
            None => {
                return None;
            },
        };
        let name = match String::next_data_le(cur) {
            Some(v) => v,
            None => {
                return None;
            },
        };
        let score = match i32::next_data_le(cur) {
            Some(v) => v,
            None => {
                return None;
            },
        };
        let duration_bits = match u32::next_data_le(cur) {
            Some(v) => v,
            None => {
                return None;
            },
        };
        Some(Player { name, score, duration_bits })
    }
}

/// One server-configuration rule: a name and its value.
#[derive(Debug)]
pub struct Rule {
    pub name: String,
    pub value: String,
}

impl Rule {
    /// The decode state after the rule's name.
    pub open spec fn after_name(data: Seq<u8>, pos: int) -> (bool, int) {
        decode_step::<String>(data, (true, pos))
    }

    /// ... after the rule's value, the record's last field.
    pub open spec fn after_value(data: Seq<u8>, pos: int) -> (bool, int) {
        decode_step::<String>(data, Self::after_name(data, pos))
    }
}

impl FromBytestream for Rule {
    open spec fn decode_ok(data: Seq<u8>, pos: int) -> bool {
        Self::after_value(data, pos).0
    }

    open spec fn decode_end(data: Seq<u8>, pos: int) -> int {
        Self::after_value(data, pos).1
    }

    open spec fn decodes_to(data: Seq<u8>, pos: int, v: Rule) -> bool {
        &&& v.name@ == lossy_utf8(str_body(data, pos))
        &&& v.value@ == lossy_utf8(str_body(data, Self::after_name(data, pos).1))
    }

    fn next_data_le(cur: &mut ByteCursor) -> (r: Option<Rule>) {
        let name = match String::next_data_le(cur) {
            Some(v) => v,
            None => {
                return None;
            },
        };
        let value = match String::next_data_le(cur) {
            Some(v) => v,
            None => {
                return None;
            },
        };
        Some(Rule { name, value })
    }
}

} // verus!
