use vstd::prelude::*;
use crate::numeral::{digits_value, is_digit_run, nat_text, parse_u16, u16_of_text, u16_text, is_digit, lemma_nat_text_denotes, law_u16_text_round_trip};
use crate::text::{chars_of, pieces, split_chars, string_from, lemma_pieces_nonempty, views};

verus! {

/// The text `addr:port` that names an endpoint, as `format!("{}:{}", addr,
/// port)` writes it.
pub open spec fn endpoint_chars(addr: Seq<char>, port: u16) -> Seq<char> {
    addr + seq![':'] + nat_text(port as nat)
}

/// The text that names the endpoint `addr:port`.
pub fn endpoint_text(addr: &str, port: u16) -> (res: String)
    ensures
        res@ == endpoint_chars(addr@, port),
{
    let mut res = addr.to_owned();
    res.append(":");
    let digits = u16_text(port);
    res.append(digits.as_str());
    proof {
        reveal_strlit(":");
    }
    res
}

/// The endpoint that a timeout report names: the report's text up to its
/// first `|` holds the address, a `:`, and the port up to any next `:`.
/// `None` when there is no `:` there or the port is not a `u16`.
pub open spec fn timeout_target(report: Seq<char>) -> Option<(Seq<char>, u16)> {
    let head = pieces(report, '|')[0];
    let fields = pieces(head, ':');
    if fields.len() >= 2 {
        match u16_of_text(fields[1]) {
            Some(port) => Some((fields[0], port)),
            None => None,
        }
    } else {
        None
    }
}

/// Reads the endpoint that a timeout report names.
pub fn parse_timeout_target(report: &str) -> (res: Option<(String, u16)>)
    ensures
        match timeout_target(report@) {
            Some((addr, port)) => res matches Some((a, p)) && a@ == addr && p == port,
            None => res is None,
        },
{
    let chars = chars_of(report);
    let parts = split_chars(&chars, '|');
    proof {
        lemma_pieces_nonempty(report@, '|');
        assert(views(parts@)[0] == parts@[0]@);
    }
    let fields = split_chars(&parts[0], ':');
    proof {
        assert(fields@.len() == views(fields@).len());
    }
    if fields.len() < 2 {
        return None;
    }
    proof {
        assert(views(fields@)[0] == fields@[0]@);
        assert(views(fields@)[1] == fields@[1]@);
    }
    match parse_u16(&fields[1]) {
        Some(port) => {
            let addr = string_from(&fields[0], 0, fields[0].len());
            proof {
                assert(fields@[0]@.subrange(0, fields@[0]@.len() as int) =~= fields@[0]@);
            }
            Some((addr, port))
        },
        None => None,
    }
}

/// `s` does not contain `c`.
pub open spec fn free_of(s: Seq<char>, c: char) -> bool {
    forall|i: int| 0 <= i < s.len() ==> s[i] != c
}

/// A text without the separator is a single piece.
pub proof fn lemma_pieces_single(a: Seq<char>, sep: char)
    requires
        free_of(a, sep),
    ensures
        pieces(a, sep) == seq![a],
    decreases a.len(),
{
    if a.len() > 0 {
        lemma_pieces_single(a.drop_last(), sep);
        assert(a.drop_last().push(a.last()) =~= a);
        assert(seq![a.drop_last()].update(0, a.drop_last().push(a.last())) =~= seq![a]);
    } else {
        assert(a =~= Seq::<char>::empty());
    }
}

/// A text that starts with a separator-free piece and a separator splits
/// into that piece and the pieces of the rest.
pub proof fn lemma_pieces_lead(a: Seq<char>, sep: char, b: Seq<char>)
    requires
        free_of(a, sep),
    ensures
        pieces(a + seq![sep] + b, sep) == seq![a] + pieces(b, sep),
    decreases b.len(),
{
    let t = a + seq![sep] + b;
    if b.len() == 0 {
        assert(t =~= a.push(sep));
        assert(t.drop_last() =~= a);
        lemma_pieces_single(a, sep);
        assert(pieces(t, sep) =~= seq![a] + pieces(b, sep));
    } else {
        lemma_pieces_lead(a, sep, b.drop_last());
        assert(t.drop_last() =~= a + seq![sep] + b.drop_last());
        lemma_pieces_nonempty(b.drop_last(), sep);
        let p = pieces(b.drop_last(), sep);
        if b.last() == sep {
            assert(pieces(t, sep) =~= seq![a] + pieces(b, sep));
        } else {
            assert((seq![a] + p).update(p.len() as int, p.last().push(b.last())) =~= seq![a] + p.update(
                p.len() - 1,
                p.last().push(b.last()),
            ));
            assert(pieces(t, sep) =~= seq![a] + pieces(b, sep));
        }
    }
}

/// The decimal text of a number holds no character but digits.
pub proof fn lemma_digits_free_of(n: nat, c: char)
    requires
        !is_digit(c),
    ensures
        free_of(nat_text(n), c),
{
    lemma_nat_text_denotes(n);
}

/// The text of an endpoint is the address, a `:`, and then the run of
/// digits that denotes the port.
pub proof fn law_endpoint_text_shape(addr: Seq<char>, port: u16)
    ensures
        endpoint_chars(addr, port).len() > addr.len() + 1,
        endpoint_chars(addr, port).take(addr.len() as int) == addr,
        endpoint_chars(addr, port)[addr.len() as int] == ':',
        is_digit_run(endpoint_chars(addr, port).skip(addr.len() as int + 1)),
        digits_value(endpoint_chars(addr, port).skip(addr.len() as int + 1)) == port,
{
    lemma_nat_text_denotes(port as nat);
    let e = endpoint_chars(addr, port);
    assert(e.take(addr.len() as int) =~= addr);
    assert(e.skip(addr.len() as int + 1) =~= nat_text(port as nat));
}

/// A timeout report that begins with the text of an endpoint, followed by
/// `|` and anything, names that endpoint, when its address holds neither `:`
/// nor `|`.
pub proof fn law_timeout_names_endpoint(addr: Seq<char>, port: u16, rest: Seq<char>)
    requires
        free_of(addr, ':'),
        free_of(addr, '|'),
    ensures
        timeout_target(endpoint_chars(addr, port) + seq!['|'] + rest) == Some((addr, port)),
{
    let digits = nat_text(port as nat);
    lemma_digits_free_of(port as nat, ':');
    lemma_digits_free_of(port as nat, '|');
    let e = endpoint_chars(addr, port);
    assert(free_of(e, '|'));
    lemma_pieces_lead(e, '|', rest);
    assert((seq![e] + pieces(rest, '|'))[0] == e);
    lemma_pieces_lead(addr, ':', digits);
    lemma_pieces_single(digits, ':');
    assert(pieces(e, ':') =~= seq![addr, digits]);
    law_u16_text_round_trip(port);
}

} // verus!
