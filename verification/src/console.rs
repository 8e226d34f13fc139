use vstd::prelude::*;
use crate::command::Command;
use crate::endpoint::{free_of, lemma_digits_free_of, lemma_pieces_lead, lemma_pieces_single};
use crate::numeral::{
    i32_of_text, int_text, is_digit, lemma_nat_text_denotes, law_i32_text_round_trip, law_u16_text_round_trip,
    nat_text, parse_i32, parse_u16, u16_of_text,
};
use crate::text::{chars_of, pieces, split_chars, string_from, views};

verus! {

/// A character that `char::is_whitespace` of std accepts: the Unicode
/// `White_Space` characters.
pub open spec fn is_whitespace(c: char) -> bool {
    ||| '\t' <= c && c <= '\r'
    ||| c == ' '
    ||| c == '\u{85}'
    ||| c == '\u{A0}'
    ||| c == '\u{1680}'
    ||| '\u{2000}' <= c && c <= '\u{200A}'
    ||| c == '\u{2028}'
    ||| c == '\u{2029}'
    ||| c == '\u{202F}'
    ||| c == '\u{205F}'
    ||| c == '\u{3000}'
}

/// Whether `c` is a whitespace character.
fn whitespace(c: char) -> (res: bool)
    ensures
        res == is_whitespace(c),
{
    ('\t' <= c && c <= '\r') || c == ' ' || c == '\u{85}' || c == '\u{A0}' || c == '\u{1680}' || (
    '\u{2000}' <= c && c <= '\u{200A}') || c == '\u{2028}' || c == '\u{2029}' || c == '\u{202F}'
        || c == '\u{205F}' || c == '\u{3000}'
}

/// The words of `s`, as `str::split_whitespace` yields them: the maximal
/// non-empty runs of characters that are not whitespace, in order.
pub open spec fn words(s: Seq<char>) -> Seq<Seq<char>>
    decreases s.len(),
{
    if s.len() == 0 {
        Seq::empty()
    } else {
        let w = words(s.drop_last());
        let c = s.last();
        if is_whitespace(c) {
            w
        } else if s.len() == 1 || is_whitespace(s[s.len() - 2]) {
            w.push(seq![c])
        } else {
            w.update(w.len() - 1, w.last().push(c))
        }
    }
}

/// The words of `v`.
pub fn split_whitespace_chars(v: &Vec<char>) -> (res: Vec<Vec<char>>)
    ensures
        views(res@) == words(v@),
{
    let mut done: Vec<Vec<char>> = Vec::new();
    let mut cur: Vec<char> = Vec::new();
    let mut i: usize = 0;
    assert(v@.take(0) =~= Seq::<char>::empty());
    while i < v.len()
        invariant
            i <= v.len(),
            cur@.len() == 0 ==> views(done@) == words(v@.take(i as int)),
            cur@.len() > 0 ==> views(done@).push(cur@) == words(v@.take(i as int)),
            cur@.len() > 0 <==> (i > 0 && !is_whitespace(v@[i - 1])),
        decreases v.len() - i,
    {
        let c = v[i];
        let ghost t = v@.take(i + 1);
        proof {
            assert(t.drop_last() =~= v@.take(i as int));
            assert(t.last() == c);
            if i > 0 {
                assert(t[t.len() - 2] == v@[i - 1]);
            }
        }
        if whitespace(c) {
            if cur.len() > 0 {
                let ghost old_done = done@;
                let finished = cur;
                done.push(finished);
                cur = Vec::new();
                assert(views(done@) =~= views(old_done).push(finished@));
            }
        } else {
            let ghost old_cur = cur@;
            cur.push(c);
            proof {
                if old_cur.len() == 0 {
                    assert(cur@ =~= seq![c]);
                    assert(!is_whitespace(c));
                    assert(t.len() == 1 || is_whitespace(t[t.len() - 2]));
                    assert(words(t) == words(t.drop_last()).push(seq![c]));
                    assert(views(done@).push(cur@) =~= words(t));
                } else {
                    assert(views(done@).push(cur@) =~= views(done@).push(old_cur).update(
                        views(done@).len() as int,
                        old_cur.push(c),
                    ));
                }
            }
        }
        i = i + 1;
    }
    assert(v@.take(v.len() as int) =~= v@);
    if cur.len() > 0 {
        let ghost before = done@;
        done.push(cur);
        assert(views(done@) =~= views(before).push(views(done@).last()));
    }
    done
}

/// The two ports that a line names: its first two words, each a `u16`.
/// `None` when there are fewer than two words or one of them is not a `u16`.
pub open spec fn ports_of_line(line: Seq<char>) -> Option<(u16, u16)> {
    let w = words(line);
    if w.len() >= 2 && u16_of_text(w[0]) is Some && u16_of_text(w[1]) is Some {
        Some((u16_of_text(w[0])->0, u16_of_text(w[1])->0))
    } else {
        None
    }
}

/// Reads the receiving and the sending port from a line.
pub fn parse_ports(line: &str) -> (res: Option<(u16, u16)>)
    ensures
        res == ports_of_line(line@),
{
    let chars = chars_of(line);
    let w = split_whitespace_chars(&chars);
    proof {
        assert(w@.len() == views(w@).len());
    }
    if w.len() < 2 {
        return None;
    }
    proof {
        assert(views(w@)[0] == w@[0]@);
        assert(views(w@)[1] == w@[1]@);
    }
    let recv = parse_u16(&w[0]);
    let send = parse_u16(&w[1]);
    match (recv, send) {
        (Some(r), Some(s)) => Some((r, s)),
        _ => None,
    }
}

/// The fields of a connect line of the main server's console: after the
/// leading `0`, comma-separated receiving address, receiving port, sending
/// address and sending port (more fields are ignored). `None` when there are
/// fewer than four fields or a port is not a `u16`.
pub open spec fn connect_fields(line: Seq<char>) -> Option<(Seq<char>, u16, Seq<char>, u16)> {
    let parts = pieces(line.drop_first(), ',');
    if parts.len() >= 4 && u16_of_text(parts[1]) is Some && u16_of_text(parts[3]) is Some {
        Some((parts[0], u16_of_text(parts[1])->0, parts[2], u16_of_text(parts[3])->0))
    } else {
        None
    }
}

/// Reads a line typed at the main server's console: `0` followed by
/// `addr,port,addr,port` asks to send a `Connect` for those endpoints, and
/// `1` asks to send a `Disconnect` with an empty address and port 0. `None`
/// for an empty line, any other first character, or a malformed connect line.
pub fn parse_server_console_line(line: &str) -> (res: Option<Command>)
    ensures
        line@.len() > 0 && line@[0] == '0' ==> match connect_fields(line@) {
            Some((a, p, b, q)) => res matches Some(Command::Connect { addr_recv, addr_send, password, add_info })
                && addr_recv.0@ == a && addr_recv.1 == p && addr_send.0@ == b && addr_send.1 == q
                && !password && add_info@ == Seq::<char>::empty(),
            None => res is None,
        },
        line@.len() > 0 && line@[0] == '1' ==> (res matches Some(Command::Disconnect { addr, port })
            && addr@ == Seq::<char>::empty() && port == 0),
        line@.len() == 0 || (line@[0] != '0' && line@[0] != '1') ==> res is None,
{
    let chars = chars_of(line);
    if chars.len() == 0 {
        return None;
    }
    if chars[0] == '1' {
        return Some(Command::Disconnect { addr: String::new(), port: 0 });
    }
    if chars[0] != '0' {
        return None;
    }
    let rest_text = string_from(&chars, 1, chars.len());
    let rest = chars_of(rest_text.as_str());
    proof {
        assert(rest@ =~= line@.drop_first());
    }
    let parts = split_chars(&rest, ',');
    proof {
        assert(parts@.len() == views(parts@).len());
    }
    if parts.len() < 4 {
        return None;
    }
    proof {
        assert(views(parts@)[0] == parts@[0]@);
        assert(views(parts@)[1] == parts@[1]@);
        assert(views(parts@)[2] == parts@[2]@);
        assert(views(parts@)[3] == parts@[3]@);
    }
    let recv_port = parse_u16(&parts[1]);
    let send_port = parse_u16(&parts[3]);
    match (recv_port, send_port) {
        (Some(p), Some(q)) => {
            let a = string_from(&parts[0], 0, parts[0].len());
            let b = string_from(&parts[2], 0, parts[2].len());
            proof {
                assert(parts@[0]@.subrange(0, parts@[0]@.len() as int) =~= parts@[0]@);
                assert(parts@[2]@.subrange(0, parts@[2]@.len() as int) =~= parts@[2]@);
            }
            Some(Command::Connect { addr_recv: (a, p), addr_send: (b, q), password: false, add_info: String::new() })
        },
        _ => None,
    }
}

/// What a line typed at a client's console asks for.
#[derive(Debug, Clone, Copy, PartialEq, Eq, Structural)]
pub enum ClientInput {
    /// `dis`: send a `Disconnect`.
    Disconnect,
    /// `message`: send the next line as a text message.
    Message,
    /// `ht`: show the header and the known peers.
    ShowTable,
    /// `dos`: send a long burst of text messages.
    Flood,
    /// A number: send to the peer with that id from now on.
    Select(i32),
}

/// What a client console line asks for; `None` for a line that is neither a
/// keyword nor an `i32`.
pub open spec fn client_input_of(line: Seq<char>) -> Option<ClientInput> {
    if line == "dis"@ {
        Some(ClientInput::Disconnect)
    } else if line == "message"@ {
        Some(ClientInput::Message)
    } else if line == "ht"@ {
        Some(ClientInput::ShowTable)
    } else if line == "dos"@ {
        Some(ClientInput::Flood)
    } else {
        match i32_of_text(line) {
            Some(id) => Some(ClientInput::Select(id)),
            None => None,
        }
    }
}

/// Whether the characters of `a` are those of `b`.
fn same_text(a: &Vec<char>, b: &str) -> (res: bool)
    ensures
        res == (a@ == b@),
{
    let bc = chars_of(b);
    if a.len() != bc.len() {
        return false;
    }
    let mut i: usize = 0;
    while i < a.len()
        invariant
            i <= a.len() == bc.len(),
            bc@ == b@,
            forall|j: int| 0 <= j < i ==> a@[j] == bc@[j],
        decreases a.len() - i,
    {
        if a[i] != bc[i] {
            return false;
        }
        i = i + 1;
    }
    assert(a@ =~= bc@);
    true
}

/// Reads a line typed at a client's console.
pub fn classify_client_line(line: &str) -> (res: Option<ClientInput>)
    ensures
        res == client_input_of(line@),
{
    let chars = chars_of(line);
    if same_text(&chars, "dis") {
        Some(ClientInput::Disconnect)
    } else if same_text(&chars, "message") {
        Some(ClientInput::Message)
    } else if same_text(&chars, "ht") {
        Some(ClientInput::ShowTable)
    } else if same_text(&chars, "dos") {
        Some(ClientInput::Flood)
    } else {
        match parse_i32(&chars) {
            Some(id) => Some(ClientInput::Select(id)),
            None => None,
        }
    }
}

/// A line `0a,p,b,q`, with addresses `a` and `b` free of commas and ports
/// written in decimal, asks for a `Connect` that receives on `a:p` and sends
/// from `b:q`: the second field is the receiving port and the fourth the
/// sending port.
pub proof fn law_console_connect_line(a: Seq<char>, p: u16, b: Seq<char>, q: u16)
    requires
        free_of(a, ','),
        free_of(b, ','),
    ensures
        ({
            let line = seq!['0'] + a + seq![','] + nat_text(p as nat) + seq![','] + b + seq![','] + nat_text(
                q as nat,
            );
            line.len() > 0 && line[0] == '0' && connect_fields(line) == Some((a, p, b, q))
        }),
{
    let tp = nat_text(p as nat);
    let tq = nat_text(q as nat);
    let line = seq!['0'] + a + seq![','] + tp + seq![','] + b + seq![','] + tq;
    let rest2 = b + seq![','] + tq;
    let rest1 = tp + seq![','] + rest2;
    assert(line.drop_first() =~= a + seq![','] + rest1);
    lemma_digits_free_of(p as nat, ',');
    lemma_digits_free_of(q as nat, ',');
    lemma_pieces_lead(a, ',', rest1);
    lemma_pieces_lead(tp, ',', rest2);
    lemma_pieces_lead(b, ',', tq);
    lemma_pieces_single(tq, ',');
    assert(pieces(line.drop_first(), ',') =~= seq![a, tp, b, tq]);
    law_u16_text_round_trip(p);
    law_u16_text_round_trip(q);
}

/// A run of characters none of which is whitespace is a single word.
proof fn lemma_words_run(x: Seq<char>)
    requires
        x.len() > 0,
        forall|i: int| 0 <= i < x.len() ==> !is_whitespace(#[trigger] x[i]),
    ensures
        words(x) == seq![x],
    decreases x.len(),
{
    assert(!is_whitespace(x[x.len() - 1]));
    if x.len() == 1 {
        assert(x.drop_last() =~= Seq::<char>::empty());
        assert(words(x.drop_last()) =~= Seq::<Seq<char>>::empty());
        assert(words(x) == words(x.drop_last()).push(seq![x.last()]));
        assert(seq![x.last()] =~= x);
        assert(words(x) =~= seq![x]);
    } else {
        assert(!is_whitespace(x[x.len() - 2]));
        lemma_words_run(x.drop_last());
        assert(x[x.len() - 2] == x.drop_last().last());
        assert(x.drop_last().push(x.last()) =~= x);
        assert(words(x) == words(x.drop_last()).update(0, x.drop_last().push(x.last())));
        assert(seq![x.drop_last()].update(0, x.drop_last().push(x.last())) =~= seq![x]);
    }
}

/// A run without whitespace after a text that ends in whitespace is one more
/// word.
proof fn lemma_words_after_space(pre: Seq<char>, y: Seq<char>)
    requires
        pre.len() > 0,
        is_whitespace(pre.last()),
        y.len() > 0,
        forall|i: int| 0 <= i < y.len() ==> !is_whitespace(#[trigger] y[i]),
    ensures
        words(pre + y) == words(pre).push(y),
    decreases y.len(),
{
    let t = pre + y;
    if y.len() == 1 {
        assert(t.drop_last() =~= pre);
        assert(t[t.len() - 2] == pre.last());
        assert(seq![t.last()] =~= y);
    } else {
        lemma_words_after_space(pre, y.drop_last());
        assert(t.drop_last() =~= pre + y.drop_last());
        assert(t[t.len() - 2] == y[y.len() - 2]);
        assert(y.drop_last().push(y.last()) =~= y);
        assert(words(pre).push(y.drop_last()).update(words(pre).len() as int, y.drop_last().push(y.last()))
            =~= words(pre).push(y));
    }
}

proof fn lemma_digits_not_whitespace(n: nat)
    ensures
        forall|i: int| 0 <= i < nat_text(n).len() ==> !is_whitespace(#[trigger] nat_text(n)[i]),
{
    lemma_nat_text_denotes(n);
    assert forall|i: int| 0 <= i < nat_text(n).len() implies !is_whitespace(#[trigger] nat_text(n)[i]) by {
        assert(is_digit(nat_text(n)[i]));
    }
}

/// A line with the decimal texts of two ports, separated by a space, gives
/// the first as the receiving port and the second as the sending port.
pub proof fn law_ports_line(r: u16, s: u16)
    ensures
        ports_of_line(nat_text(r as nat) + seq![' '] + nat_text(s as nat)) == Some((r, s)),
{
    let tr = nat_text(r as nat);
    let ts = nat_text(s as nat);
    lemma_nat_text_denotes(r as nat);
    lemma_nat_text_denotes(s as nat);
    lemma_digits_not_whitespace(r as nat);
    lemma_digits_not_whitespace(s as nat);
    let pre = tr + seq![' '];
    lemma_words_run(tr);
    assert(pre.drop_last() =~= tr);
    assert(words(pre) == words(tr));
    lemma_words_after_space(pre, ts);
    assert(words(tr + seq![' '] + ts) =~= seq![tr, ts]);
    law_u16_text_round_trip(r);
    law_u16_text_round_trip(s);
}

/// The decimal text of any id selects the peer with that id.
pub proof fn law_select_any_id(n: i32)
    ensures
        client_input_of(int_text(n as int)) == Some(ClientInput::Select(n)),
{
    reveal_strlit("dis");
    reveal_strlit("message");
    reveal_strlit("ht");
    reveal_strlit("dos");
    let t = int_text(n as int);
    if n < 0 {
        lemma_nat_text_denotes((-n) as nat);
        assert(t[0] == '-');
    } else {
        lemma_nat_text_denotes(n as nat);
        assert(is_digit(t[0]));
    }
    assert(t != "dis"@);
    assert(t != "message"@);
    assert(t != "ht"@);
    assert(t != "dos"@);
    law_i32_text_round_trip(n);
}

} // verus!
