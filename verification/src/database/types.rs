//! The threads of the board as the database returns them, and their JSON form.

use vstd::prelude::*;

use crate::api::json::{digits_value, is_digit, law_decimal_reads_back, decimal, json_str, json_string_literal, push_decimal, push_signed_decimal, signed_decimal};

verus! {

/// A thread of the board.
pub struct BoardData {
    /// The id of the thread.
    pub id: u32,
    /// The text of the thread.
    pub data: String,
    /// How many users have liked the thread.
    pub likes: i64,
    /// Whether the user who asked has liked the thread.
    pub liked: bool,
}

/// Whether `b` is false: a `liked` field that is false is left out of the JSON.
pub fn is_false(b: &bool) -> (r: bool)
    ensures
        r == !*b,
{
    !*b
}

/// The JSON object of a thread: `id`, `data` and `likes`, then `"liked":true`
/// only when the thread is liked.
pub open spec fn board_json(b: BoardData) -> Seq<char> {
    "{\"id\":"@ + decimal(b.id as nat) + ",\"data\":"@ + json_string_literal(b.data@)
        + ",\"likes\":"@ + signed_decimal(b.likes as int) + (if b.liked {
        ",\"liked\":true"@
    } else {
        Seq::<char>::empty()
    }) + "}"@
}

/// The JSON objects of the threads, separated by commas.
pub open spec fn boards_json_items(s: Seq<BoardData>) -> Seq<char>
    decreases s.len(),
{
    if s.len() == 0 {
        Seq::empty()
    } else if s.len() == 1 {
        board_json(s[0])
    } else {
        boards_json_items(s.drop_last()) + ","@ + board_json(s.last())
    }
}

/// The JSON array of the threads, in their order.
pub open spec fn boards_json(s: Seq<BoardData>) -> Seq<char> {
    "["@ + boards_json_items(s) + "]"@
}

/// The board's JSON array puts exactly one comma between each two adjacent
/// threads: with no thread it is `[]`, with one thread it is that thread's
/// object in brackets, and adding a thread after at least one other adds a
/// comma and the new thread's object before the closing bracket.
pub proof fn law_boards_json_commas(s: Seq<BoardData>, b: BoardData)
    ensures
        boards_json(Seq::<BoardData>::empty()) == "[]"@,
        s.len() == 0 ==> boards_json(s.push(b)) == "["@ + board_json(b) + "]"@,
        s.len() > 0 ==> boards_json(s.push(b)) == "["@ + boards_json_items(s) + ","@ + board_json(
            b,
        ) + "]"@,
{
    reveal_strlit("[");
    reveal_strlit("]");
    reveal_strlit("[]");
    assert(boards_json(Seq::<BoardData>::empty()) =~= "[]"@);
    let t = s.push(b);
    assert(t.drop_last() =~= s);
    assert(t.last() == b);
    if s.len() == 0 {
        assert(t[0] == b);
    }
}

/// A thread's JSON object opens with its id in decimal, which reads back as
/// the id; a liked thread's object is the unliked one with `,"liked":true`
/// added before the closing brace.
pub proof fn law_board_json_fields(b: BoardData)
    ensures
        board_json(b).subrange(0, 6) == "{\"id\":"@,
        forall|i: int|
            6 <= i < 6 + decimal(b.id as nat).len() as int ==> is_digit(#[trigger] board_json(b)[i]),
        digits_value(board_json(b).subrange(6, 6 + decimal(b.id as nat).len() as int)) == b.id,
        board_json(b)[6 + decimal(b.id as nat).len() as int] == ',',
        board_json(b).last() == '}',
        b.liked ==> board_json(b) == board_json(BoardData { liked: false, ..b }).drop_last()
            + ",\"liked\":true}"@,
{
    reveal_strlit("{\"id\":");
    reveal_strlit(",\"data\":");
    reveal_strlit("}");
    reveal_strlit(",\"liked\":true}");
    reveal_strlit(",\"liked\":true");
    law_decimal_reads_back(b.id as nat);
    let d = decimal(b.id as nat);
    let j = board_json(b);
    let rest = ",\"data\":"@ + json_string_literal(b.data@) + ",\"likes\":"@ + signed_decimal(
        b.likes as int,
    ) + (if b.liked {
        ",\"liked\":true"@
    } else {
        Seq::<char>::empty()
    }) + "}"@;
    assert(j =~= "{\"id\":"@ + d + rest);
    assert(j.subrange(0, 6) =~= "{\"id\":"@);
    assert(j.subrange(6, 6 + d.len() as int) =~= d);
    assert forall|i: int| 6 <= i < 6 + d.len() as int implies is_digit(#[trigger] j[i]) by {
        assert(j[i] == d[i - 6]);
    }
    assert(j[6 + d.len() as int] == rest[0]);
    if b.liked {
        let u = BoardData { liked: false, ..b };
        assert(board_json(u).drop_last() + ",\"liked\":true}"@ =~= j);
    }
}

impl BoardData {
    /// Appends the JSON object of this thread to `out`.
    pub fn push_json(&self, out: &mut String)
        ensures
            final(out)@ == old(out)@ + board_json(*self),
    {
        out.append("{\"id\":");
        push_decimal(out, self.id as u64);
        out.append(",\"data\":");
        let quoted = json_str(self.data.as_str());
        out.append(quoted.as_str());
        out.append(",\"likes\":");
        push_signed_decimal(out, self.likes);
        if !is_false(&self.liked) {
            out.append(",\"liked\":true");
        }
        out.append("}");
        assert(out@ =~= old(out)@ + board_json(*self));
    }

    /// The JSON object of this thread.
    pub fn to_json(&self) -> (r: String)
        ensures
            r@ == board_json(*self),
    {
        let mut out = String::new();
        self.push_json(&mut out);
        assert(out@ =~= board_json(*self));
        out
    }
}

/// The JSON array of the threads, in their order.
pub fn boards_to_json(boards: &Vec<BoardData>) -> (r: String)
    ensures
        r@ == boards_json(boards@),
{
    let mut out = String::new();
    out.append("[");
    let n = boards.len();
    for i in 0..n
        invariant
            n == boards@.len(),
            out@ == "["@ + boards_json_items(boards@.take(i as int)),
    {
        if i > 0 {
            out.append(",");
        }
        boards[i].push_json(&mut out);
        proof {
            let s = boards@.take(i + 1);
            assert(s.drop_last() =~= boards@.take(i as int));
            assert(s.last() == boards@[i as int]);
            if i == 0 {
                assert(boards@.take(0) =~= Seq::<BoardData>::empty());
            }
            assert(out@ =~= "["@ + boards_json_items(s));
        }
    }
    out.append("]");
    assert(boards@.take(n as int) =~= boards@);
    assert(out@ =~= boards_json(boards@));
    out
}

} // verus!
