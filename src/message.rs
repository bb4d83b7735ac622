//! Client messages on their way to the worker, and worker replies on their
//! way back: correlation by the field `id`.
use vstd::prelude::*;
use crate::wire::{
    decode_utf8, insert_string, object_text, parse_object, parsed_fields, render_object,
    string_field, string_text, trim, trim_of, utf8_text,
};

verus! {

/// The name of the field that carries a connection's identity.
pub open spec fn id_key() -> Seq<char> {
    seq!['i', 'd']
}

/// The text of a chunk read from a socket or a pipe: decoded as UTF-8 and
/// trimmed; `None` where the bytes are not UTF-8.
pub open spec fn chunk_text(chunk: Seq<u8>) -> Option<Seq<char>> {
    match utf8_text(chunk) {
        Some(t) => Some(trim_of(t)),
        None => None,
    }
}

/// The fields of the structured message that a chunk holds, if it holds one.
pub open spec fn chunk_fields(chunk: Seq<u8>) -> Option<Map<Seq<char>, Seq<char>>> {
    match chunk_text(chunk) {
        Some(t) => parsed_fields(t),
        None => None,
    }
}

/// What is forwarded to the worker for a chunk from the connection `id`:
/// the message with its field `id` set to the connection's identity, or
/// nothing where the chunk is not a structured message.
pub open spec fn tagged(chunk: Seq<u8>, id: Seq<char>) -> Option<Seq<char>> {
    match chunk_fields(chunk) {
        Some(f) => Some(object_text(f.insert(id_key(), string_text(id)))),
        None => None,
    }
}

/// Whether the fields `f` carry the correlation id `id`.
pub open spec fn carries_id(f: Map<Seq<char>, Seq<char>>, id: Seq<char>) -> bool {
    f.contains_key(id_key()) && f[id_key()] == string_text(id)
}

/// The correlation id that a reply chunk carries, if it carries one.
pub open spec fn reply_id(chunk: Seq<u8>) -> Option<Seq<char>> {
    match chunk_fields(chunk) {
        Some(f) => if exists|id: Seq<char>| carries_id(f, id) {
            Some(choose|id: Seq<char>| carries_id(f, id))
        } else {
            None
        },
        None => None,
    }
}

/// A worker reply bound for one connection: its correlation id, and the
/// payload to hand over, which is the reply text itself, id included.
pub struct Reply {
    pub id: String,
    pub payload: String,
}

/// Tags a chunk read from the connection `id` for the worker. Chunks that
/// are not UTF-8, or not a JSON object once trimmed, are dropped (`None`).
pub fn tag_message(chunk: &[u8], id: &str) -> (r: Option<String>)
    ensures
        r matches Some(m) ==> tagged(chunk@, id@) == Some(m@),
        r is None ==> tagged(chunk@, id@) is None,
{
    let text = match decode_utf8(chunk) {
        Some(t) => t,
        None => return None,
    };
    let text = trim(text);
    match parse_object(text) {
        Some(mut fields) => {
            insert_string(&mut fields, "id".to_string(), id.to_string());
            proof {
                reveal_strlit("id");
            }
            assert("id"@ =~= id_key());
            Some(render_object(fields))
        },
        None => None,
    }
}

/// Reads a worker reply chunk: the correlation id that it carries and the
/// trimmed reply text. `None` where the chunk is not a JSON object, or its
/// field `id` is absent or not a string.
pub fn read_reply(chunk: &[u8]) -> (r: Option<Reply>)
    ensures
        match r {
            Some(rep) => {
                &&& reply_id(chunk@) == Some(rep.id@)
                &&& chunk_text(chunk@) == Some(rep.payload@)
            },
            None => reply_id(chunk@) is None,
        },
{
    let text = match decode_utf8(chunk) {
        Some(t) => t,
        None => return None,
    };
    let text = trim(text);
    proof {
        reveal_strlit("id");
    }
    assert("id"@ =~= id_key());
    match parse_object(text) {
        Some(fields) => {
            let id = string_field(&fields, "id");
            match id {
                Some(v) => {
                    assert(carries_id(parsed_fields(text@).unwrap(), v@));
                    let ghost f = parsed_fields(text@).unwrap();
                    let ghost c = choose|i: Seq<char>| carries_id(f, i);
                    assert(carries_id(f, c));
                    assert(string_text(c) == string_text(v@));
                    Some(Reply { id: v, payload: text.to_string() })
                },
                None => {
                    let ghost f = parsed_fields(text@).unwrap();
                    assert(!exists|i: Seq<char>| carries_id(f, i));
                    None
                },
            }
        },
        None => None,
    }
}

} // verus!

verus! {

/// Tagging adds exactly one field: for every chunk that holds a structured
/// message, what is forwarded is that message with the field `id` set to the
/// sender's identity, and every other field as it was.
pub proof fn lemma_tagging_sets_only_id(chunk: Seq<u8>, id: Seq<char>)
    requires
        chunk_fields(chunk) is Some,
    ensures
        tagged(chunk, id) matches Some(out) && out == object_text(
            chunk_fields(chunk).unwrap().insert(id_key(), string_text(id)),
        ),
        ({
            let before = chunk_fields(chunk).unwrap();
            let after = before.insert(id_key(), string_text(id));
            forall|k: Seq<char>|
                k != id_key() ==> {
                    &&& #[trigger] after.contains_key(k) == before.contains_key(k)
                    &&& before.contains_key(k) ==> after[k] == before[k]
                }
        }),
        carries_id(chunk_fields(chunk).unwrap().insert(id_key(), string_text(id)), id),
{
}

} // verus!
