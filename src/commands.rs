//! The command table: for each command name, how its arguments are read and
//! whether it reads or writes.
use vstd::prelude::*;
use crate::message::QueryType;

verus! {

/// How a command's arguments split into keys and values.
#[derive(Debug, Clone, Copy, PartialEq, Eq, Structural)]
pub enum ExtractionShape {
    /// Every argument is a key.
    Keys,
    /// The first argument is the key, the rest are its values.
    KeyMultiValues,
    /// The first argument is the key, the rest are field/value pairs.
    KeyMap,
    /// Arguments alternate key, value.
    KeyValues,
}

/// What the table holds for one command.
#[derive(Debug, Clone, Copy, PartialEq, Eq, Structural)]
pub struct CommandEntry {
    pub shape: ExtractionShape,
    pub query_type: QueryType,
}

pub open spec fn entry(shape: ExtractionShape, query_type: QueryType) -> Option<CommandEntry> {
    Some(CommandEntry { shape, query_type })
}

/// The table, keyed by the upper-case command name in ASCII bytes.
pub open spec fn command_entry(n: Seq<u8>) -> Option<CommandEntry> {
    // APPEND
    if n.len() == 6 && n[0] == 65u8 && n[1] == 80u8 && n[2] == 80u8 && n[3] == 69u8 && n[4] == 78u8 && n[5] == 68u8 {
        entry(ExtractionShape::KeyValues, QueryType::Write)
    // BITCOUNT
    } else if n.len() == 8 && n[0] == 66u8 && n[1] == 73u8 && n[2] == 84u8 && n[3] == 67u8 && n[4] == 79u8 && n[5] == 85u8 && n[6] == 78u8 && n[7] == 84u8 {
        entry(ExtractionShape::KeyValues, QueryType::Read)
    // SET
    } else if n.len() == 3 && n[0] == 83u8 && n[1] == 69u8 && n[2] == 84u8 {
        entry(ExtractionShape::KeyValues, QueryType::Write)
    // SETNX
    } else if n.len() == 5 && n[0] == 83u8 && n[1] == 69u8 && n[2] == 84u8 && n[3] == 78u8 && n[4] == 88u8 {
        entry(ExtractionShape::KeyValues, QueryType::Write)
    // SETRANGE
    } else if n.len() == 8 && n[0] == 83u8 && n[1] == 69u8 && n[2] == 84u8 && n[3] == 82u8 && n[4] == 65u8 && n[5] == 78u8 && n[6] == 71u8 && n[7] == 69u8 {
        entry(ExtractionShape::KeyValues, QueryType::Write)
    // STRLEN
    } else if n.len() == 6 && n[0] == 83u8 && n[1] == 84u8 && n[2] == 82u8 && n[3] == 76u8 && n[4] == 69u8 && n[5] == 78u8 {
        entry(ExtractionShape::Keys, QueryType::Read)
    // MSET
    } else if n.len() == 4 && n[0] == 77u8 && n[1] == 83u8 && n[2] == 69u8 && n[3] == 84u8 {
        entry(ExtractionShape::KeyValues, QueryType::Write)
    // MSETNX
    } else if n.len() == 6 && n[0] == 77u8 && n[1] == 83u8 && n[2] == 69u8 && n[3] == 84u8 && n[4] == 78u8 && n[5] == 88u8 {
        entry(ExtractionShape::KeyValues, QueryType::Write)
    // GET
    } else if n.len() == 3 && n[0] == 71u8 && n[1] == 69u8 && n[2] == 84u8 {
        entry(ExtractionShape::Keys, QueryType::Read)
    // GETRANGE
    } else if n.len() == 8 && n[0] == 71u8 && n[1] == 69u8 && n[2] == 84u8 && n[3] == 82u8 && n[4] == 65u8 && n[5] == 78u8 && n[6] == 71u8 && n[7] == 69u8 {
        entry(ExtractionShape::KeyValues, QueryType::Read)
    // MGET
    } else if n.len() == 4 && n[0] == 77u8 && n[1] == 71u8 && n[2] == 69u8 && n[3] == 84u8 {
        entry(ExtractionShape::Keys, QueryType::Read)
    // INCR
    } else if n.len() == 4 && n[0] == 73u8 && n[1] == 78u8 && n[2] == 67u8 && n[3] == 82u8 {
        entry(ExtractionShape::Keys, QueryType::Write)
    // INCRBY
    } else if n.len() == 6 && n[0] == 73u8 && n[1] == 78u8 && n[2] == 67u8 && n[3] == 82u8 && n[4] == 66u8 && n[5] == 89u8 {
        entry(ExtractionShape::KeyValues, QueryType::Write)
    // INCRBYFLOAT
    } else if n.len() == 11 && n[0] == 73u8 && n[1] == 78u8 && n[2] == 67u8 && n[3] == 82u8 && n[4] == 66u8 && n[5] == 89u8 && n[6] == 70u8 && n[7] == 76u8 && n[8] == 79u8 && n[9] == 65u8 && n[10] == 84u8 {
        entry(ExtractionShape::KeyValues, QueryType::Write)
    // DECR
    } else if n.len() == 4 && n[0] == 68u8 && n[1] == 69u8 && n[2] == 67u8 && n[3] == 82u8 {
        entry(ExtractionShape::Keys, QueryType::Write)
    // DECRBY
    } else if n.len() == 6 && n[0] == 68u8 && n[1] == 69u8 && n[2] == 67u8 && n[3] == 82u8 && n[4] == 66u8 && n[5] == 89u8 {
        entry(ExtractionShape::KeyValues, QueryType::Write)
    // DEL
    } else if n.len() == 3 && n[0] == 68u8 && n[1] == 69u8 && n[2] == 76u8 {
        entry(ExtractionShape::Keys, QueryType::Write)
    // EXPIRE
    } else if n.len() == 6 && n[0] == 69u8 && n[1] == 88u8 && n[2] == 80u8 && n[3] == 73u8 && n[4] == 82u8 && n[5] == 69u8 {
        entry(ExtractionShape::KeyValues, QueryType::Write)
    // TTL
    } else if n.len() == 3 && n[0] == 84u8 && n[1] == 84u8 && n[2] == 76u8 {
        entry(ExtractionShape::Keys, QueryType::Write)
    // RPUSH
    } else if n.len() == 5 && n[0] == 82u8 && n[1] == 80u8 && n[2] == 85u8 && n[3] == 83u8 && n[4] == 72u8 {
        entry(ExtractionShape::KeyMultiValues, QueryType::Write)
    // RPUSHX
    } else if n.len() == 6 && n[0] == 82u8 && n[1] == 80u8 && n[2] == 85u8 && n[3] == 83u8 && n[4] == 72u8 && n[5] == 88u8 {
        entry(ExtractionShape::KeyValues, QueryType::Write)
    // LPUSH
    } else if n.len() == 5 && n[0] == 76u8 && n[1] == 80u8 && n[2] == 85u8 && n[3] == 83u8 && n[4] == 72u8 {
        entry(ExtractionShape::KeyMultiValues, QueryType::Write)
    // LRANGE
    } else if n.len() == 6 && n[0] == 76u8 && n[1] == 82u8 && n[2] == 65u8 && n[3] == 78u8 && n[4] == 71u8 && n[5] == 69u8 {
        entry(ExtractionShape::KeyMultiValues, QueryType::Read)
    // LINDEX
    } else if n.len() == 6 && n[0] == 76u8 && n[1] == 73u8 && n[2] == 78u8 && n[3] == 68u8 && n[4] == 69u8 && n[5] == 88u8 {
        entry(ExtractionShape::KeyMultiValues, QueryType::Read)
    // LINSERT
    } else if n.len() == 7 && n[0] == 76u8 && n[1] == 73u8 && n[2] == 78u8 && n[3] == 83u8 && n[4] == 69u8 && n[5] == 82u8 && n[6] == 84u8 {
        entry(ExtractionShape::KeyMultiValues, QueryType::Write)
    // LLEN
    } else if n.len() == 4 && n[0] == 76u8 && n[1] == 76u8 && n[2] == 69u8 && n[3] == 78u8 {
        entry(ExtractionShape::Keys, QueryType::Read)
    // LPOP
    } else if n.len() == 4 && n[0] == 76u8 && n[1] == 80u8 && n[2] == 79u8 && n[3] == 80u8 {
        entry(ExtractionShape::Keys, QueryType::Write)
    // LSET
    } else if n.len() == 4 && n[0] == 76u8 && n[1] == 83u8 && n[2] == 69u8 && n[3] == 84u8 {
        entry(ExtractionShape::KeyMultiValues, QueryType::Write)
    // LTRIM
    } else if n.len() == 5 && n[0] == 76u8 && n[1] == 84u8 && n[2] == 82u8 && n[3] == 73u8 && n[4] == 77u8 {
        entry(ExtractionShape::KeyMultiValues, QueryType::Write)
    // RPOP
    } else if n.len() == 4 && n[0] == 82u8 && n[1] == 80u8 && n[2] == 79u8 && n[3] == 80u8 {
        entry(ExtractionShape::Keys, QueryType::Write)
    // SADD
    } else if n.len() == 4 && n[0] == 83u8 && n[1] == 65u8 && n[2] == 68u8 && n[3] == 68u8 {
        entry(ExtractionShape::KeyMultiValues, QueryType::Write)
    // SCARD
    } else if n.len() == 5 && n[0] == 83u8 && n[1] == 67u8 && n[2] == 65u8 && n[3] == 82u8 && n[4] == 68u8 {
        entry(ExtractionShape::Keys, QueryType::Read)
    // SREM
    } else if n.len() == 4 && n[0] == 83u8 && n[1] == 82u8 && n[2] == 69u8 && n[3] == 77u8 {
        entry(ExtractionShape::KeyMultiValues, QueryType::Write)
    // SISMEMBER
    } else if n.len() == 9 && n[0] == 83u8 && n[1] == 73u8 && n[2] == 83u8 && n[3] == 77u8 && n[4] == 69u8 && n[5] == 77u8 && n[6] == 66u8 && n[7] == 69u8 && n[8] == 82u8 {
        entry(ExtractionShape::Keys, QueryType::Read)
    // SMEMBERS
    } else if n.len() == 8 && n[0] == 83u8 && n[1] == 77u8 && n[2] == 69u8 && n[3] == 77u8 && n[4] == 66u8 && n[5] == 69u8 && n[6] == 82u8 && n[7] == 83u8 {
        entry(ExtractionShape::Keys, QueryType::Read)
    // SUNION
    } else if n.len() == 6 && n[0] == 83u8 && n[1] == 85u8 && n[2] == 78u8 && n[3] == 73u8 && n[4] == 79u8 && n[5] == 78u8 {
        entry(ExtractionShape::Keys, QueryType::Read)
    // SINTER
    } else if n.len() == 6 && n[0] == 83u8 && n[1] == 73u8 && n[2] == 78u8 && n[3] == 84u8 && n[4] == 69u8 && n[5] == 82u8 {
        entry(ExtractionShape::Keys, QueryType::Read)
    // SMOVE
    } else if n.len() == 5 && n[0] == 83u8 && n[1] == 77u8 && n[2] == 79u8 && n[3] == 86u8 && n[4] == 69u8 {
        entry(ExtractionShape::KeyValues, QueryType::Write)
    // SPOP
    } else if n.len() == 4 && n[0] == 83u8 && n[1] == 80u8 && n[2] == 79u8 && n[3] == 80u8 {
        entry(ExtractionShape::KeyValues, QueryType::Write)
    // ZADD
    } else if n.len() == 4 && n[0] == 90u8 && n[1] == 65u8 && n[2] == 68u8 && n[3] == 68u8 {
        entry(ExtractionShape::KeyMultiValues, QueryType::Write)
    // ZCARD
    } else if n.len() == 5 && n[0] == 90u8 && n[1] == 67u8 && n[2] == 65u8 && n[3] == 82u8 && n[4] == 68u8 {
        entry(ExtractionShape::Keys, QueryType::Read)
    // ZCOUNT
    } else if n.len() == 6 && n[0] == 90u8 && n[1] == 67u8 && n[2] == 79u8 && n[3] == 85u8 && n[4] == 78u8 && n[5] == 84u8 {
        entry(ExtractionShape::KeyMultiValues, QueryType::Read)
    // ZINCRBY
    } else if n.len() == 7 && n[0] == 90u8 && n[1] == 73u8 && n[2] == 78u8 && n[3] == 67u8 && n[4] == 82u8 && n[5] == 66u8 && n[6] == 89u8 {
        entry(ExtractionShape::KeyMultiValues, QueryType::Write)
    // ZRANGE
    } else if n.len() == 6 && n[0] == 90u8 && n[1] == 82u8 && n[2] == 65u8 && n[3] == 78u8 && n[4] == 71u8 && n[5] == 69u8 {
        entry(ExtractionShape::KeyMultiValues, QueryType::Read)
    // ZRANK
    } else if n.len() == 5 && n[0] == 90u8 && n[1] == 82u8 && n[2] == 65u8 && n[3] == 78u8 && n[4] == 75u8 {
        entry(ExtractionShape::Keys, QueryType::Read)
    // ZREM
    } else if n.len() == 4 && n[0] == 90u8 && n[1] == 82u8 && n[2] == 69u8 && n[3] == 77u8 {
        entry(ExtractionShape::KeyMultiValues, QueryType::Write)
    // ZREMRANGEBYRANK
    } else if n.len() == 15 && n[0] == 90u8 && n[1] == 82u8 && n[2] == 69u8 && n[3] == 77u8 && n[4] == 82u8 && n[5] == 65u8 && n[6] == 78u8 && n[7] == 71u8 && n[8] == 69u8 && n[9] == 66u8 && n[10] == 89u8 && n[11] == 82u8 && n[12] == 65u8 && n[13] == 78u8 && n[14] == 75u8 {
        entry(ExtractionShape::KeyMultiValues, QueryType::Write)
    // ZREMRANGEBYSCORE
    } else if n.len() == 16 && n[0] == 90u8 && n[1] == 82u8 && n[2] == 69u8 && n[3] == 77u8 && n[4] == 82u8 && n[5] == 65u8 && n[6] == 78u8 && n[7] == 71u8 && n[8] == 69u8 && n[9] == 66u8 && n[10] == 89u8 && n[11] == 83u8 && n[12] == 67u8 && n[13] == 79u8 && n[14] == 82u8 && n[15] == 69u8 {
        entry(ExtractionShape::KeyMultiValues, QueryType::Write)
    // ZSCORE
    } else if n.len() == 6 && n[0] == 90u8 && n[1] == 83u8 && n[2] == 67u8 && n[3] == 79u8 && n[4] == 82u8 && n[5] == 69u8 {
        entry(ExtractionShape::Keys, QueryType::Read)
    // ZRANGEBYSCORE
    } else if n.len() == 13 && n[0] == 90u8 && n[1] == 82u8 && n[2] == 65u8 && n[3] == 78u8 && n[4] == 71u8 && n[5] == 69u8 && n[6] == 66u8 && n[7] == 89u8 && n[8] == 83u8 && n[9] == 67u8 && n[10] == 79u8 && n[11] == 82u8 && n[12] == 69u8 {
        entry(ExtractionShape::KeyMultiValues, QueryType::Read)
    // HGET
    } else if n.len() == 4 && n[0] == 72u8 && n[1] == 71u8 && n[2] == 69u8 && n[3] == 84u8 {
        entry(ExtractionShape::Keys, QueryType::Read)
    // HGETALL
    } else if n.len() == 7 && n[0] == 72u8 && n[1] == 71u8 && n[2] == 69u8 && n[3] == 84u8 && n[4] == 65u8 && n[5] == 76u8 && n[6] == 76u8 {
        entry(ExtractionShape::Keys, QueryType::Read)
    // HSET
    } else if n.len() == 4 && n[0] == 72u8 && n[1] == 83u8 && n[2] == 69u8 && n[3] == 84u8 {
        entry(ExtractionShape::KeyMap, QueryType::Write)
    // HSETNX
    } else if n.len() == 6 && n[0] == 72u8 && n[1] == 83u8 && n[2] == 69u8 && n[3] == 84u8 && n[4] == 78u8 && n[5] == 88u8 {
        entry(ExtractionShape::KeyMap, QueryType::Write)
    // HMSET
    } else if n.len() == 5 && n[0] == 72u8 && n[1] == 77u8 && n[2] == 83u8 && n[3] == 69u8 && n[4] == 84u8 {
        entry(ExtractionShape::KeyMap, QueryType::Write)
    // HINCRBY
    } else if n.len() == 7 && n[0] == 72u8 && n[1] == 73u8 && n[2] == 78u8 && n[3] == 67u8 && n[4] == 82u8 && n[5] == 66u8 && n[6] == 89u8 {
        entry(ExtractionShape::KeyMultiValues, QueryType::Write)
    // HDEL
    } else if n.len() == 4 && n[0] == 72u8 && n[1] == 68u8 && n[2] == 69u8 && n[3] == 76u8 {
        entry(ExtractionShape::KeyMultiValues, QueryType::Write)
    // HEXISTS
    } else if n.len() == 7 && n[0] == 72u8 && n[1] == 69u8 && n[2] == 88u8 && n[3] == 73u8 && n[4] == 83u8 && n[5] == 84u8 && n[6] == 83u8 {
        entry(ExtractionShape::KeyValues, QueryType::Read)
    // HKEYS
    } else if n.len() == 5 && n[0] == 72u8 && n[1] == 75u8 && n[2] == 69u8 && n[3] == 89u8 && n[4] == 83u8 {
        entry(ExtractionShape::Keys, QueryType::Read)
    // HLEN
    } else if n.len() == 4 && n[0] == 72u8 && n[1] == 76u8 && n[2] == 69u8 && n[3] == 78u8 {
        entry(ExtractionShape::Keys, QueryType::Read)
    // HSTRLEN
    } else if n.len() == 7 && n[0] == 72u8 && n[1] == 83u8 && n[2] == 84u8 && n[3] == 82u8 && n[4] == 76u8 && n[5] == 69u8 && n[6] == 78u8 {
        entry(ExtractionShape::KeyValues, QueryType::Read)
    // HVALS
    } else if n.len() == 5 && n[0] == 72u8 && n[1] == 86u8 && n[2] == 65u8 && n[3] == 76u8 && n[4] == 83u8 {
        entry(ExtractionShape::Keys, QueryType::Read)
    // PFADD
    } else if n.len() == 5 && n[0] == 80u8 && n[1] == 70u8 && n[2] == 65u8 && n[3] == 68u8 && n[4] == 68u8 {
        entry(ExtractionShape::KeyMultiValues, QueryType::Write)
    // PFCOUNT
    } else if n.len() == 7 && n[0] == 80u8 && n[1] == 70u8 && n[2] == 67u8 && n[3] == 79u8 && n[4] == 85u8 && n[5] == 78u8 && n[6] == 84u8 {
        entry(ExtractionShape::Keys, QueryType::Read)
    // PFMERGE
    } else if n.len() == 7 && n[0] == 80u8 && n[1] == 70u8 && n[2] == 77u8 && n[3] == 69u8 && n[4] == 82u8 && n[5] == 71u8 && n[6] == 69u8 {
        entry(ExtractionShape::KeyMultiValues, QueryType::Write)
    } else {
        None
    }
}

/// Looks a command up in the table; `name` is already upper case.
pub fn lookup_command(name: &Vec<u8>) -> (r: Option<CommandEntry>)
    ensures
        r == command_entry(name@),
{
    // APPEND
    if name.len() == 6 && name[0] == 65u8 && name[1] == 80u8 && name[2] == 80u8 && name[3] == 69u8 && name[4] == 78u8 && name[5] == 68u8 {
        return Some(CommandEntry { shape: ExtractionShape::KeyValues, query_type: QueryType::Write });
    }
    // BITCOUNT
    if name.len() == 8 && name[0] == 66u8 && name[1] == 73u8 && name[2] == 84u8 && name[3] == 67u8 && name[4] == 79u8 && name[5] == 85u8 && name[6] == 78u8 && name[7] == 84u8 {
        return Some(CommandEntry { shape: ExtractionShape::KeyValues, query_type: QueryType::Read });
    }
    // SET
    if name.len() == 3 && name[0] == 83u8 && name[1] == 69u8 && name[2] == 84u8 {
        return Some(CommandEntry { shape: ExtractionShape::KeyValues, query_type: QueryType::Write });
    }
    // SETNX
    if name.len() == 5 && name[0] == 83u8 && name[1] == 69u8 && name[2] == 84u8 && name[3] == 78u8 && name[4] == 88u8 {
        return Some(CommandEntry { shape: ExtractionShape::KeyValues, query_type: QueryType::Write });
    }
    // SETRANGE
    if name.len() == 8 && name[0] == 83u8 && name[1] == 69u8 && name[2] == 84u8 && name[3] == 82u8 && name[4] == 65u8 && name[5] == 78u8 && name[6] == 71u8 && name[7] == 69u8 {
        return Some(CommandEntry { shape: ExtractionShape::KeyValues, query_type: QueryType::Write });
    }
    // STRLEN
    if name.len() == 6 && name[0] == 83u8 && name[1] == 84u8 && name[2] == 82u8 && name[3] == 76u8 && name[4] == 69u8 && name[5] == 78u8 {
        return Some(CommandEntry { shape: ExtractionShape::Keys, query_type: QueryType::Read });
    }
    // MSET
    if name.len() == 4 && name[0] == 77u8 && name[1] == 83u8 && name[2] == 69u8 && name[3] == 84u8 {
        return Some(CommandEntry { shape: ExtractionShape::KeyValues, query_type: QueryType::Write });
    }
    // MSETNX
    if name.len() == 6 && name[0] == 77u8 && name[1] == 83u8 && name[2] == 69u8 && name[3] == 84u8 && name[4] == 78u8 && name[5] == 88u8 {
        return Some(CommandEntry { shape: ExtractionShape::KeyValues, query_type: QueryType::Write });
    }
    // GET
    if name.len() == 3 && name[0] == 71u8 && name[1] == 69u8 && name[2] == 84u8 {
        return Some(CommandEntry { shape: ExtractionShape::Keys, query_type: QueryType::Read });
    }
    // GETRANGE
    if name.len() == 8 && name[0] == 71u8 && name[1] == 69u8 && name[2] == 84u8 && name[3] == 82u8 && name[4] == 65u8 && name[5] == 78u8 && name[6] == 71u8 && name[7] == 69u8 {
        return Some(CommandEntry { shape: ExtractionShape::KeyValues, query_type: QueryType::Read });
    }
    // MGET
    if name.len() == 4 && name[0] == 77u8 && name[1] == 71u8 && name[2] == 69u8 && name[3] == 84u8 {
        return Some(CommandEntry { shape: ExtractionShape::Keys, query_type: QueryType::Read });
    }
    // INCR
    if name.len() == 4 && name[0] == 73u8 && name[1] == 78u8 && name[2] == 67u8 && name[3] == 82u8 {
        return Some(CommandEntry { shape: ExtractionShape::Keys, query_type: QueryType::Write });
    }
    // INCRBY
    if name.len() == 6 && name[0] == 73u8 && name[1] == 78u8 && name[2] == 67u8 && name[3] == 82u8 && name[4] == 66u8 && name[5] == 89u8 {
        return Some(CommandEntry { shape: ExtractionShape::KeyValues, query_type: QueryType::Write });
    }
    // INCRBYFLOAT
    if name.len() == 11 && name[0] == 73u8 && name[1] == 78u8 && name[2] == 67u8 && name[3] == 82u8 && name[4] == 66u8 && name[5] == 89u8 && name[6] == 70u8 && name[7] == 76u8 && name[8] == 79u8 && name[9] == 65u8 && name[10] == 84u8 {
        return Some(CommandEntry { shape: ExtractionShape::KeyValues, query_type: QueryType::Write });
    }
    // DECR
    if name.len() == 4 && name[0] == 68u8 && name[1] == 69u8 && name[2] == 67u8 && name[3] == 82u8 {
        return Some(CommandEntry { shape: ExtractionShape::Keys, query_type: QueryType::Write });
    }
    // DECRBY
    if name.len() == 6 && name[0] == 68u8 && name[1] == 69u8 && name[2] == 67u8 && name[3] == 82u8 && name[4] == 66u8 && name[5] == 89u8 {
        return Some(CommandEntry { shape: ExtractionShape::KeyValues, query_type: QueryType::Write });
    }
    // DEL
    if name.len() == 3 && name[0] == 68u8 && name[1] == 69u8 && name[2] == 76u8 {
        return Some(CommandEntry { shape: ExtractionShape::Keys, query_type: QueryType::Write });
    }
    // EXPIRE
    if name.len() == 6 && name[0] == 69u8 && name[1] == 88u8 && name[2] == 80u8 && name[3] == 73u8 && name[4] == 82u8 && name[5] == 69u8 {
        return Some(CommandEntry { shape: ExtractionShape::KeyValues, query_type: QueryType::Write });
    }
    // TTL
    if name.len() == 3 && name[0] == 84u8 && name[1] == 84u8 && name[2] == 76u8 {
        return Some(CommandEntry { shape: ExtractionShape::Keys, query_type: QueryType::Write });
    }
    // RPUSH
    if name.len() == 5 && name[0] == 82u8 && name[1] == 80u8 && name[2] == 85u8 && name[3] == 83u8 && name[4] == 72u8 {
        return Some(CommandEntry { shape: ExtractionShape::KeyMultiValues, query_type: QueryType::Write });
    }
    // RPUSHX
    if name.len() == 6 && name[0] == 82u8 && name[1] == 80u8 && name[2] == 85u8 && name[3] == 83u8 && name[4] == 72u8 && name[5] == 88u8 {
        return Some(CommandEntry { shape: ExtractionShape::KeyValues, query_type: QueryType::Write });
    }
    // LPUSH
    if name.len() == 5 && name[0] == 76u8 && name[1] == 80u8 && name[2] == 85u8 && name[3] == 83u8 && name[4] == 72u8 {
        return Some(CommandEntry { shape: ExtractionShape::KeyMultiValues, query_type: QueryType::Write });
    }
    // LRANGE
    if name.len() == 6 && name[0] == 76u8 && name[1] == 82u8 && name[2] == 65u8 && name[3] == 78u8 && name[4] == 71u8 && name[5] == 69u8 {
        return Some(CommandEntry { shape: ExtractionShape::KeyMultiValues, query_type: QueryType::Read });
    }
    // LINDEX
    if name.len() == 6 && name[0] == 76u8 && name[1] == 73u8 && name[2] == 78u8 && name[3] == 68u8 && name[4] == 69u8 && name[5] == 88u8 {
        return Some(CommandEntry { shape: ExtractionShape::KeyMultiValues, query_type: QueryType::Read });
    }
    // LINSERT
    if name.len() == 7 && name[0] == 76u8 && name[1] == 73u8 && name[2] == 78u8 && name[3] == 83u8 && name[4] == 69u8 && name[5] == 82u8 && name[6] == 84u8 {
        return Some(CommandEntry { shape: ExtractionShape::KeyMultiValues, query_type: QueryType::Write });
    }
    // LLEN
    if name.len() == 4 && name[0] == 76u8 && name[1] == 76u8 && name[2] == 69u8 && name[3] == 78u8 {
        return Some(CommandEntry { shape: ExtractionShape::Keys, query_type: QueryType::Read });
    }
    // LPOP
    if name.len() == 4 && name[0] == 76u8 && name[1] == 80u8 && name[2] == 79u8 && name[3] == 80u8 {
        return Some(CommandEntry { shape: ExtractionShape::Keys, query_type: QueryType::Write });
    }
    // LSET
    if name.len() == 4 && name[0] == 76u8 && name[1] == 83u8 && name[2] == 69u8 && name[3] == 84u8 {
        return Some(CommandEntry { shape: ExtractionShape::KeyMultiValues, query_type: QueryType::Write });
    }
    // LTRIM
    if name.len() == 5 && name[0] == 76u8 && name[1] == 84u8 && name[2] == 82u8 && name[3] == 73u8 && name[4] == 77u8 {
        return Some(CommandEntry { shape: ExtractionShape::KeyMultiValues, query_type: QueryType::Write });
    }
    // RPOP
    if name.len() == 4 && name[0] == 82u8 && name[1] == 80u8 && name[2] == 79u8 && name[3] == 80u8 {
        return Some(CommandEntry { shape: ExtractionShape::Keys, query_type: QueryType::Write });
    }
    // SADD
    if name.len() == 4 && name[0] == 83u8 && name[1] == 65u8 && name[2] == 68u8 && name[3] == 68u8 {
        return Some(CommandEntry { shape: ExtractionShape::KeyMultiValues, query_type: QueryType::Write });
    }
    // SCARD
    if name.len() == 5 && name[0] == 83u8 && name[1] == 67u8 && name[2] == 65u8 && name[3] == 82u8 && name[4] == 68u8 {
        return Some(CommandEntry { shape: ExtractionShape::Keys, query_type: QueryType::Read });
    }
    // SREM
    if name.len() == 4 && name[0] == 83u8 && name[1] == 82u8 && name[2] == 69u8 && name[3] == 77u8 {
        return Some(CommandEntry { shape: ExtractionShape::KeyMultiValues, query_type: QueryType::Write });
    }
    // SISMEMBER
    if name.len() == 9 && name[0] == 83u8 && name[1] == 73u8 && name[2] == 83u8 && name[3] == 77u8 && name[4] == 69u8 && name[5] == 77u8 && name[6] == 66u8 && name[7] == 69u8 && name[8] == 82u8 {
        return Some(CommandEntry { shape: ExtractionShape::Keys, query_type: QueryType::Read });
    }
    // SMEMBERS
    if name.len() == 8 && name[0] == 83u8 && name[1] == 77u8 && name[2] == 69u8 && name[3] == 77u8 && name[4] == 66u8 && name[5] == 69u8 && name[6] == 82u8 && name[7] == 83u8 {
        return Some(CommandEntry { shape: ExtractionShape::Keys, query_type: QueryType::Read });
    }
    // SUNION
    if name.len() == 6 && name[0] == 83u8 && name[1] == 85u8 && name[2] == 78u8 && name[3] == 73u8 && name[4] == 79u8 && name[5] == 78u8 {
        return Some(CommandEntry { shape: ExtractionShape::Keys, query_type: QueryType::Read });
    }
    // SINTER
    if name.len() == 6 && name[0] == 83u8 && name[1] == 73u8 && name[2] == 78u8 && name[3] == 84u8 && name[4] == 69u8 && name[5] == 82u8 {
        return Some(CommandEntry { shape: ExtractionShape::Keys, query_type: QueryType::Read });
    }
    // SMOVE
    if name.len() == 5 && name[0] == 83u8 && name[1] == 77u8 && name[2] == 79u8 && name[3] == 86u8 && name[4] == 69u8 {
        return Some(CommandEntry { shape: ExtractionShape::KeyValues, query_type: QueryType::Write });
    }
    // SPOP
    if name.len() == 4 && name[0] == 83u8 && name[1] == 80u8 && name[2] == 79u8 && name[3] == 80u8 {
        return Some(CommandEntry { shape: ExtractionShape::KeyValues, query_type: QueryType::Write });
    }
    // ZADD
    if name.len() == 4 && name[0] == 90u8 && name[1] == 65u8 && name[2] == 68u8 && name[3] == 68u8 {
        return Some(CommandEntry { shape: ExtractionShape::KeyMultiValues, query_type: QueryType::Write });
    }
    // ZCARD
    if name.len() == 5 && name[0] == 90u8 && name[1] == 67u8 && name[2] == 65u8 && name[3] == 82u8 && name[4] == 68u8 {
        return Some(CommandEntry { shape: ExtractionShape::Keys, query_type: QueryType::Read });
    }
    // ZCOUNT
    if name.len() == 6 && name[0] == 90u8 && name[1] == 67u8 && name[2] == 79u8 && name[3] == 85u8 && name[4] == 78u8 && name[5] == 84u8 {
        return Some(CommandEntry { shape: ExtractionShape::KeyMultiValues, query_type: QueryType::Read });
    }
    // ZINCRBY
    if name.len() == 7 && name[0] == 90u8 && name[1] == 73u8 && name[2] == 78u8 && name[3] == 67u8 && name[4] == 82u8 && name[5] == 66u8 && name[6] == 89u8 {
        return Some(CommandEntry { shape: ExtractionShape::KeyMultiValues, query_type: QueryType::Write });
    }
    // ZRANGE
    if name.len() == 6 && name[0] == 90u8 && name[1] == 82u8 && name[2] == 65u8 && name[3] == 78u8 && name[4] == 71u8 && name[5] == 69u8 {
        return Some(CommandEntry { shape: ExtractionShape::KeyMultiValues, query_type: QueryType::Read });
    }
    // ZRANK
    if name.len() == 5 && name[0] == 90u8 && name[1] == 82u8 && name[2] == 65u8 && name[3] == 78u8 && name[4] == 75u8 {
        return Some(CommandEntry { shape: ExtractionShape::Keys, query_type: QueryType::Read });
    }
    // ZREM
    if name.len() == 4 && name[0] == 90u8 && name[1] == 82u8 && name[2] == 69u8 && name[3] == 77u8 {
        return Some(CommandEntry { shape: ExtractionShape::KeyMultiValues, query_type: QueryType::Write });
    }
    // ZREMRANGEBYRANK
    if name.len() == 15 && name[0] == 90u8 && name[1] == 82u8 && name[2] == 69u8 && name[3] == 77u8 && name[4] == 82u8 && name[5] == 65u8 && name[6] == 78u8 && name[7] == 71u8 && name[8] == 69u8 && name[9] == 66u8 && name[10] == 89u8 && name[11] == 82u8 && name[12] == 65u8 && name[13] == 78u8 && name[14] == 75u8 {
        return Some(CommandEntry { shape: ExtractionShape::KeyMultiValues, query_type: QueryType::Write });
    }
    // ZREMRANGEBYSCORE
    if name.len() == 16 && name[0] == 90u8 && name[1] == 82u8 && name[2] == 69u8 && name[3] == 77u8 && name[4] == 82u8 && name[5] == 65u8 && name[6] == 78u8 && name[7] == 71u8 && name[8] == 69u8 && name[9] == 66u8 && name[10] == 89u8 && name[11] == 83u8 && name[12] == 67u8 && name[13] == 79u8 && name[14] == 82u8 && name[15] == 69u8 {
        return Some(CommandEntry { shape: ExtractionShape::KeyMultiValues, query_type: QueryType::Write });
    }
    // ZSCORE
    if name.len() == 6 && name[0] == 90u8 && name[1] == 83u8 && name[2] == 67u8 && name[3] == 79u8 && name[4] == 82u8 && name[5] == 69u8 {
        return Some(CommandEntry { shape: ExtractionShape::Keys, query_type: QueryType::Read });
    }
    // ZRANGEBYSCORE
    if name.len() == 13 && name[0] == 90u8 && name[1] == 82u8 && name[2] == 65u8 && name[3] == 78u8 && name[4] == 71u8 && name[5] == 69u8 && name[6] == 66u8 && name[7] == 89u8 && name[8] == 83u8 && name[9] == 67u8 && name[10] == 79u8 && name[11] == 82u8 && name[12] == 69u8 {
        return Some(CommandEntry { shape: ExtractionShape::KeyMultiValues, query_type: QueryType::Read });
    }
    // HGET
    if name.len() == 4 && name[0] == 72u8 && name[1] == 71u8 && name[2] == 69u8 && name[3] == 84u8 {
        return Some(CommandEntry { shape: ExtractionShape::Keys, query_type: QueryType::Read });
    }
    // HGETALL
    if name.len() == 7 && name[0] == 72u8 && name[1] == 71u8 && name[2] == 69u8 && name[3] == 84u8 && name[4] == 65u8 && name[5] == 76u8 && name[6] == 76u8 {
        return Some(CommandEntry { shape: ExtractionShape::Keys, query_type: QueryType::Read });
    }
    // HSET
    if name.len() == 4 && name[0] == 72u8 && name[1] == 83u8 && name[2] == 69u8 && name[3] == 84u8 {
        return Some(CommandEntry { shape: ExtractionShape::KeyMap, query_type: QueryType::Write });
    }
    // HSETNX
    if name.len() == 6 && name[0] == 72u8 && name[1] == 83u8 && name[2] == 69u8 && name[3] == 84u8 && name[4] == 78u8 && name[5] == 88u8 {
        return Some(CommandEntry { shape: ExtractionShape::KeyMap, query_type: QueryType::Write });
    }
    // HMSET
    if name.len() == 5 && name[0] == 72u8 && name[1] == 77u8 && name[2] == 83u8 && name[3] == 69u8 && name[4] == 84u8 {
        return Some(CommandEntry { shape: ExtractionShape::KeyMap, query_type: QueryType::Write });
    }
    // HINCRBY
    if name.len() == 7 && name[0] == 72u8 && name[1] == 73u8 && name[2] == 78u8 && name[3] == 67u8 && name[4] == 82u8 && name[5] == 66u8 && name[6] == 89u8 {
        return Some(CommandEntry { shape: ExtractionShape::KeyMultiValues, query_type: QueryType::Write });
    }
    // HDEL
    if name.len() == 4 && name[0] == 72u8 && name[1] == 68u8 && name[2] == 69u8 && name[3] == 76u8 {
        return Some(CommandEntry { shape: ExtractionShape::KeyMultiValues, query_type: QueryType::Write });
    }
    // HEXISTS
    if name.len() == 7 && name[0] == 72u8 && name[1] == 69u8 && name[2] == 88u8 && name[3] == 73u8 && name[4] == 83u8 && name[5] == 84u8 && name[6] == 83u8 {
        return Some(CommandEntry { shape: ExtractionShape::KeyValues, query_type: QueryType::Read });
    }
    // HKEYS
    if name.len() == 5 && name[0] == 72u8 && name[1] == 75u8 && name[2] == 69u8 && name[3] == 89u8 && name[4] == 83u8 {
        return Some(CommandEntry { shape: ExtractionShape::Keys, query_type: QueryType::Read });
    }
    // HLEN
    if name.len() == 4 && name[0] == 72u8 && name[1] == 76u8 && name[2] == 69u8 && name[3] == 78u8 {
        return Some(CommandEntry { shape: ExtractionShape::Keys, query_type: QueryType::Read });
    }
    // HSTRLEN
    if name.len() == 7 && name[0] == 72u8 && name[1] == 83u8 && name[2] == 84u8 && name[3] == 82u8 && name[4] == 76u8 && name[5] == 69u8 && name[6] == 78u8 {
        return Some(CommandEntry { shape: ExtractionShape::KeyValues, query_type: QueryType::Read });
    }
    // HVALS
    if name.len() == 5 && name[0] == 72u8 && name[1] == 86u8 && name[2] == 65u8 && name[3] == 76u8 && name[4] == 83u8 {
        return Some(CommandEntry { shape: ExtractionShape::Keys, query_type: QueryType::Read });
    }
    // PFADD
    if name.len() == 5 && name[0] == 80u8 && name[1] == 70u8 && name[2] == 65u8 && name[3] == 68u8 && name[4] == 68u8 {
        return Some(CommandEntry { shape: ExtractionShape::KeyMultiValues, query_type: QueryType::Write });
    }
    // PFCOUNT
    if name.len() == 7 && name[0] == 80u8 && name[1] == 70u8 && name[2] == 67u8 && name[3] == 79u8 && name[4] == 85u8 && name[5] == 78u8 && name[6] == 84u8 {
        return Some(CommandEntry { shape: ExtractionShape::Keys, query_type: QueryType::Read });
    }
    // PFMERGE
    if name.len() == 7 && name[0] == 80u8 && name[1] == 70u8 && name[2] == 77u8 && name[3] == 69u8 && name[4] == 82u8 && name[5] == 71u8 && name[6] == 69u8 {
        return Some(CommandEntry { shape: ExtractionShape::KeyMultiValues, query_type: QueryType::Write });
    }
    None
}

/// A command that only reads, by the table.
pub open spec fn is_read_command(n: Seq<u8>) -> bool {
    command_entry(n) matches Some(e) && e.query_type == QueryType::Read
}

/// Whether the upper-case command `name` only reads, by the table.
pub fn read_command(name: &Vec<u8>) -> (r: bool)
    ensures
        r == is_read_command(name@),
{
    match lookup_command(name) {
        Some(e) => e.query_type == QueryType::Read,
        None => false,
    }
}

} // verus!
