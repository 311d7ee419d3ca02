//! What holds of the server: who is let in, how long a client is known, what is answered,
//! and how long messages travel.
use crate::json::{written, JsonView};
use crate::json_law::entry_law;
use crate::server::{
    access, alive, begun, chunk_json, end_json, error_json, frames, heard_of, kept_reply,
    origin_allowed, pieces_from, pieces_law, remembered, request_number, result_json, settled_reply,
    Access, HistoryView, Origin, RepliedView, SeenClients,
};
use crate::text::{digits, encode_concat};
use crate::text_law::number_law;
use vstd::prelude::*;
use vstd::seq_lib::*;
use vstd::string::*;
use vstd::utf8::*;

verus! {

// ---------------------------------------------------------------------------
// Access
// ---------------------------------------------------------------------------

/// A page may come from nowhere or from a listed place. Of those that may, one that only asks
/// beforehand is answered so, and another is let in just where it bears the token.
pub proof fn access_law(
    origin: Origin,
    allowed: Seq<Seq<char>>,
    preflight: bool,
    authorization: Option<Seq<char>>,
    token: Seq<char>,
)
    ensures
        ({
            let given = access(origin, allowed, preflight, authorization, token);
            let welcome = origin is Absent || (origin is Named && allowed.contains(
                origin->Named_0@,
            ));
            let proven = authorization is Some && authorization->0.len() == 7 + token.len()
                && authorization->0.take(7) == seq!['B', 'e', 'a', 'r', 'e', 'r', ' ']
                && authorization->0.skip(7) == token;
            &&& origin_allowed(origin, allowed) == welcome
            &&& given == Access::Granted <==> welcome && !preflight && proven
            &&& given == Access::Forbidden <==> !welcome
            &&& given == Access::Preflight <==> welcome && preflight
            &&& given == Access::Unauthorized <==> welcome && !preflight && !proven
        }),
{
    reveal_strlit("Bearer ");
    let bearer = "Bearer "@;
    assert(bearer =~= seq!['B', 'e', 'a', 'r', 'e', 'r', ' ']);
    if authorization is Some {
        let header = authorization->0;
        if header == bearer + token {
            assert(header.take(7) =~= bearer);
            assert(header.skip(7) =~= token);
        }
        if header.len() == 7 + token.len() && header.take(7) == bearer && header.skip(7) == token {
            assert(header =~= header.take(7) + header.skip(7));
        }
    }
}

// ---------------------------------------------------------------------------
// Clients
// ---------------------------------------------------------------------------

/// Clients that were heard of within a day stay, in their order, and all others go.
pub proof fn alive_law(clients: SeenClients, now: u64)
    ensures
        alive(clients, now) == clients.filter(
            |c: (Seq<char>, u64)| now <= c.1 || now - c.1 < 86_400,
        ),
    decreases clients.len(),
{
    reveal(Seq::filter);
    if clients.len() > 0 {
        alive_law(clients.drop_last(), now);
    }
}

/// A client that is heard of is known from now on, and the others stay as they are.
pub proof fn heard_law(clients: SeenClients, id: Seq<char>, now: u64, i: int)
    requires
        0 <= i < clients.len(),
    ensures
        heard_of(clients, id, now).len() == clients.len(),
        heard_of(clients, id, now)[i].0 == clients[i].0,
        clients[i].0 == id ==> heard_of(clients, id, now)[i].1 == now,
        clients[i].0 != id ==> heard_of(clients, id, now)[i] == clients[i],
{
}

// ---------------------------------------------------------------------------
// Replies
// ---------------------------------------------------------------------------

/// A refusal answers its request, and says why.
pub proof fn refusal_law(id: Seq<char>, code: Seq<char>, message: Seq<char>)
    ensures
        ({
            let reply = error_json(id, code, message);
            &&& reply.text_at("type"@) == Some("reply"@)
            &&& reply.text_at("request_id"@) == Some(id)
            &&& reply.get("error"@) is Some
            &&& reply.get("error"@)->0.text_at("code"@) == Some(code)
            &&& reply.get("error"@)->0.text_at("message"@) == Some(message)
            &&& reply.get("result"@) is None
        }),
{
    reveal_strlit("type");
    reveal_strlit("request_id");
    reveal_strlit("error");
    reveal_strlit("code");
    reveal_strlit("message");
    reveal_strlit("result");
    assert("type"@.len() != "request_id"@.len());
    assert("type"@.len() != "error"@.len());
    assert("type"@[0] != "code"@[0]);
    assert("type"@.len() != "message"@.len());
    assert("type"@.len() != "result"@.len());
    assert("request_id"@.len() != "error"@.len());
    assert("request_id"@.len() != "code"@.len());
    assert("request_id"@.len() != "message"@.len());
    assert("request_id"@.len() != "result"@.len());
    assert("error"@.len() != "code"@.len());
    assert("error"@.len() != "message"@.len());
    assert("error"@.len() != "result"@.len());
    assert("code"@.len() != "message"@.len());
    assert("code"@.len() != "result"@.len());
    assert("message"@.len() != "result"@.len());
    let fields = error_json(id, code, message)->Object_0;
    assert(fields[0].0 == "type"@);
    assert(fields[1].0 == "request_id"@);
    assert(fields[2].0 == "error"@);
    entry_law(fields, 0);
    assert forall|k: int| 0 <= k < 1 implies (#[trigger] fields[k]).0 != fields[1].0 by {
        assert(k == 0);
    }
    entry_law(fields, 1);
    assert forall|k: int| 0 <= k < 2 implies (#[trigger] fields[k]).0 != fields[2].0 by {
        assert(k == 0 || k == 1);
    }
    entry_law(fields, 2);
    let inner = fields[2].1->Object_0;
    assert(inner[0].0 == "code"@);
    assert(inner[1].0 == "message"@);
    entry_law(inner, 0);
    assert forall|k: int| 0 <= k < 1 implies (#[trigger] inner[k]).0 != inner[1].0 by {
        assert(k == 0);
    }
    entry_law(inner, 1);
    assert forall|k: int| 0 <= k < fields.len() implies (#[trigger] fields[k]).0 != "result"@ by {
        assert(k == 0 || k == 1 || k == 2);
    }
    crate::json_law::no_entry_law(fields, "result"@);
}

/// A result answers its request.
pub proof fn answer_law(id: Seq<char>, result: JsonView)
    ensures
        ({
            let reply = result_json(id, result);
            &&& reply.text_at("type"@) == Some("reply"@)
            &&& reply.text_at("request_id"@) == Some(id)
            &&& reply.get("result"@) == Some(result)
            &&& reply.get("error"@) is None
        }),
{
    reveal_strlit("type");
    reveal_strlit("request_id");
    reveal_strlit("error");
    reveal_strlit("result");
    assert("type"@.len() != "request_id"@.len());
    assert("type"@.len() != "error"@.len());
    assert("type"@.len() != "result"@.len());
    assert("request_id"@.len() != "error"@.len());
    assert("request_id"@.len() != "result"@.len());
    assert("error"@.len() != "result"@.len());
    let fields = result_json(id, result)->Object_0;
    assert(fields[0].0 == "type"@);
    assert(fields[1].0 == "request_id"@);
    assert(fields[2].0 == "result"@);
    entry_law(fields, 0);
    assert forall|k: int| 0 <= k < 1 implies (#[trigger] fields[k]).0 != fields[1].0 by {
        assert(k == 0);
    }
    entry_law(fields, 1);
    assert forall|k: int| 0 <= k < 2 implies (#[trigger] fields[k]).0 != fields[2].0 by {
        assert(k == 0 || k == 1);
    }
    entry_law(fields, 2);
    assert forall|k: int| 0 <= k < fields.len() implies (#[trigger] fields[k]).0 != "error"@ by {
        assert(k == 0 || k == 1 || k == 2);
    }
    crate::json_law::no_entry_law(fields, "error"@);
}

/// Requests are numbered from one on.
pub proof fn request_id_law(n: u64)
    ensures
        n > 0 ==> request_number(digits(n as nat)) == Some(n),
        request_number(digits(0)) is None,
        request_number(Seq::empty()) is None,
{
    number_law(n);
    number_law(0);
}

proof fn kept_reply_is(replies: Seq<RepliedView>, number: u64)
    ensures
        match kept_reply(replies, number) {
            Some(replied) => replied.number == number && replies.contains(replied),
            None => forall|i: int| 0 <= i < replies.len() ==> (#[trigger] replies[i]).number
                != number,
        },
    decreases replies.len(),
{
    if replies.len() > 0 {
        let rest = replies.skip(1);
        kept_reply_is(rest, number);
        if replies[0].number != number {
            match kept_reply(rest, number) {
                Some(replied) => {
                    let k = choose|k: int| 0 <= k < rest.len() && rest[k] == replied;
                    assert(replies[k + 1] == replied);
                },
                None => {
                    assert forall|i: int| 0 <= i < replies.len() implies (
                    #[trigger] replies[i]).number != number by {
                        if i > 0 {
                            assert(rest[i - 1] == replies[i]);
                        }
                    }
                },
            }
        } else {
            assert(replies.contains(replies[0]));
        }
    }
}

/// The code of a refusal.
pub open spec fn refused_as(reply: Option<JsonView>, id: Seq<char>, code: Seq<char>) -> bool {
    &&& reply is Some
    &&& reply->0.text_at("request_id"@) == Some(id)
    &&& reply->0.get("error"@) is Some
    &&& reply->0.get("error"@)->0.text_at("code"@) == Some(code)
}

/// A request is acted on just where its id is a number and, where it changes something, one
/// above all before. One that was answered gets the same answer again; under the same number
/// nothing else is taken, and a number whose answer is gone is refused.
pub proof fn settled_law(history: HistoryView, id: Seq<char>, payload: Seq<char>, mutation: bool, i: int)
    requires
        history.wf(),
    ensures
        ({
            let reply = settled_reply(history, id, payload, mutation);
            let number = request_number(id);
            &&& reply is None <==> number is Some && (mutation ==> number->0 > history.highest)
            &&& number is None ==> refused_as(reply, id, "invalid_request_id"@)
            &&& number is Some && mutation && 0 <= i < history.replies.len()
                && history.replies[i].number == number->0 && history.replies[i].payload == payload
                ==> reply == Some(history.replies[i].reply)
            &&& number is Some && mutation && 0 <= i < history.replies.len()
                && history.replies[i].number == number->0 && history.replies[i].payload != payload
                ==> refused_as(reply, id, "request_id_reused"@)
            &&& number is Some && mutation && number->0 <= history.highest && (forall|k: int|
                0 <= k < history.replies.len() ==> (#[trigger] history.replies[k]).number
                    != number->0) ==> refused_as(reply, id, "expired_request"@)
        }),
{
    refusal_law(
        id,
        "invalid_request_id"@,
        "use a positive increasing integer encoded as a string"@,
    );
    refusal_law(id, "request_id_reused"@, "request ID was used with another payload"@);
    refusal_law(
        id,
        "expired_request"@,
        "the original outcome is no longer cached; reconcile state before retrying"@,
    );
    if request_number(id) is Some {
        let number = request_number(id)->0;
        kept_reply_is(history.replies, number);
        if 0 <= i < history.replies.len() && history.replies[i].number == number {
            let found = kept_reply(history.replies, number)->0;
            let k = choose|k: int| 0 <= k < history.replies.len() && history.replies[k] == found;
            assert(k == i) by {
                if k < i {
                    assert(history.replies[k].number < history.replies[i].number);
                } else if i < k {
                    assert(history.replies[i].number < history.replies[k].number);
                }
            }
        }
    }
}

/// The newest answers are kept, in their order, as many as there is room for; a request that
/// only reads raises no number.
pub proof fn kept_law(history: HistoryView, replied: RepliedView, number: u64)
    requires
        history.wf(),
    ensures
        ({
            let next = remembered(history, replied);
            &&& next.highest == history.highest
            &&& next.replies.len() == if history.replies.len() < 128 {
                history.replies.len() + 1
            } else {
                128
            }
            &&& next.replies.last() == replied
            &&& next.replies.drop_last() == history.replies.skip(
                history.replies.len() + 1 - next.replies.len(),
            )
            &&& begun(history, number, false) == history
            &&& begun(history, number, true).highest == number
            &&& begun(history, number, true).replies == history.replies
        }),
{
    let next = remembered(history, replied);
    assert(next.replies.drop_last() =~= history.replies.skip(
        history.replies.len() + 1 - next.replies.len(),
    ));
}

// ---------------------------------------------------------------------------
// Long messages
// ---------------------------------------------------------------------------

/// A piece says whose it is, which it is, and what it holds.
pub proof fn piece_law(id: Seq<char>, index: u64, data: Seq<char>)
    ensures
        chunk_json(id, index, data).text_at("type"@) == Some("chunk"@),
        chunk_json(id, index, data).text_at("id"@) == Some(id),
        chunk_json(id, index, data).get("index"@) == Some(JsonView::Unsigned(index)),
        chunk_json(id, index, data).text_at("data"@) == Some(data),
{
    reveal_strlit("type");
    reveal_strlit("id");
    reveal_strlit("index");
    reveal_strlit("data");
    assert("type"@.len() != "id"@.len());
    assert("type"@.len() != "index"@.len());
    assert("type"@[0] != "data"@[0]);
    assert("id"@.len() != "index"@.len());
    assert("id"@.len() != "data"@.len());
    assert("index"@.len() != "data"@.len());
    let fields = chunk_json(id, index, data)->Object_0;
    assert(fields[0].0 == "type"@);
    assert(fields[1].0 == "id"@);
    assert(fields[2].0 == "index"@);
    assert(fields[3].0 == "data"@);
    entry_law(fields, 0);
    assert forall|k: int| 0 <= k < 1 implies (#[trigger] fields[k]).0 != fields[1].0 by {
        assert(k == 0);
    }
    entry_law(fields, 1);
    assert forall|k: int| 0 <= k < 2 implies (#[trigger] fields[k]).0 != fields[2].0 by {
        assert(k == 0 || k == 1);
    }
    entry_law(fields, 2);
    assert forall|k: int| 0 <= k < 3 implies (#[trigger] fields[k]).0 != fields[3].0 by {
        assert(k == 0 || k == 1 || k == 2);
    }
    entry_law(fields, 3);
}

/// The end says whose it is, and how many pieces there were.
pub proof fn last_piece_law(id: Seq<char>, count: u64)
    ensures
        end_json(id, count).text_at("type"@) == Some("chunk_end"@),
        end_json(id, count).text_at("id"@) == Some(id),
        end_json(id, count).get("count"@) == Some(JsonView::Unsigned(count)),
{
    reveal_strlit("type");
    reveal_strlit("id");
    reveal_strlit("count");
    assert("type"@.len() != "id"@.len());
    assert("type"@.len() != "count"@.len());
    assert("id"@.len() != "count"@.len());
    let fields = end_json(id, count)->Object_0;
    assert(fields[0].0 == "type"@);
    assert(fields[1].0 == "id"@);
    assert(fields[2].0 == "count"@);
    entry_law(fields, 0);
    assert forall|k: int| 0 <= k < 1 implies (#[trigger] fields[k]).0 != fields[1].0 by {
        assert(k == 0);
    }
    entry_law(fields, 1);
    assert forall|k: int| 0 <= k < 2 implies (#[trigger] fields[k]).0 != fields[2].0 by {
        assert(k == 0 || k == 1);
    }
    entry_law(fields, 2);
}

/// A short message travels as it is. A long one travels in pieces, numbered from zero, that
/// together are its text, and then an end that says how many they are.
pub proof fn travel_law(message: Seq<char>, id: Seq<char>, data: Seq<Seq<char>>, i: int)
    requires
        data.len() == frames(message, id).len() - 1,
        forall|k: int|
            0 <= k < data.len() ==> encode_utf8(#[trigger] data[k]) == pieces_from(
                encode_utf8(message),
                0,
            )[k],
    ensures
        encode_utf8(message).len() <= 32_768 ==> frames(message, id) == seq![message],
        encode_utf8(message).len() > 32_768 ==> {
            &&& frames(message, id).last() == written(end_json(id, data.len() as u64))
            &&& 0 <= i < data.len() ==> frames(message, id)[i] == written(
                chunk_json(id, i as u64, data[i]),
            )
            &&& 0 <= i < data.len() ==> 0 < encode_utf8(data[i]).len() <= 32_768
            &&& encode_utf8(data.flatten()) == encode_utf8(message)
            &&& data.flatten() == message
        },
{
    if encode_utf8(message).len() > 32_768 {
        let bytes = encode_utf8(message);
        let pieces = pieces_from(bytes, 0);
        pieces_law(message);
        assert forall|k: int| 0 <= k < data.len() implies decode_utf8(#[trigger] pieces[k])
            == data[k] by {
            encode_utf8_decode_utf8(data[k]);
        }
        joined_is(data, pieces);
        encode_utf8_decode_utf8(data.flatten());
        encode_utf8_decode_utf8(message);
    }
}

proof fn joined_is(data: Seq<Seq<char>>, pieces: Seq<Seq<u8>>)
    requires
        data.len() == pieces.len(),
        forall|k: int| 0 <= k < data.len() ==> encode_utf8(#[trigger] data[k]) == pieces[k],
    ensures
        encode_utf8(data.flatten()) == crate::server::concatenated(pieces),
    decreases data.len(),
{
    if data.len() == 0 {
        assert(data.flatten() =~= Seq::empty());
    } else {
        let rest = data.drop_first();
        assert forall|k: int| 0 <= k < rest.len() implies encode_utf8(#[trigger] rest[k])
            == pieces.skip(1)[k] by {
            assert(rest[k] == data[k + 1]);
        }
        joined_is(rest, pieces.skip(1));
        assert(data.flatten() =~= data.first() + rest.flatten());
        encode_concat(data.first(), rest.flatten());
        assert(encode_utf8(data[0]) == pieces[0]);
    }
}

} // verus!
