//! The canonical text of a block can be read back: two blocks with the same
//! canonical text hold the same values.
use crate::text::{decimal_text, digit_char, json_escape, json_escaped, json_string_text, natural_text};
use crate::block::{
    block_json, block_preimage, transaction_json, transactions_json, BlockView, TransactionView,
};
use vstd::prelude::*;

verus! {

/// A prefix that two texts share can be taken off both.
pub proof fn cancel_prefix(l: Seq<char>, x: Seq<char>, y: Seq<char>)
    requires
        l + x == l + y,
    ensures
        x == y,
{
    assert(x =~= (l + x).subrange(l.len() as int, (l + x).len() as int));
    assert(y =~= (l + y).subrange(l.len() as int, (l + y).len() as int));
}

/// Two texts that are equal and split at the same place have equal parts.
pub proof fn split_at_same_place(a: Seq<char>, x: Seq<char>, b: Seq<char>, y: Seq<char>)
    requires
        a + x == b + y,
        a.len() == b.len(),
    ensures
        a == b,
        x == y,
{
    assert(a =~= (a + x).subrange(0, a.len() as int));
    assert(b =~= (b + y).subrange(0, b.len() as int));
    assert(x =~= (a + x).subrange(a.len() as int, (a + x).len() as int));
    assert(y =~= (b + y).subrange(b.len() as int, (b + y).len() as int));
}

/// `c` is one of the ten decimal digits.
pub open spec fn is_decimal_digit(c: char) -> bool {
    c == '0' || c == '1' || c == '2' || c == '3' || c == '4' || c == '5' || c == '6' || c == '7'
        || c == '8' || c == '9'
}

/// The number that a text of decimal digits writes.
pub open spec fn digits_value(s: Seq<char>) -> nat
    decreases s.len(),
{
    if s.len() == 0 {
        0
    } else {
        digits_value(s.drop_last()) * 10 + digit_value(s.last())
    }
}

/// The number that a decimal digit writes.
pub open spec fn digit_value(c: char) -> nat {
    if c == '1' {
        1
    } else if c == '2' {
        2
    } else if c == '3' {
        3
    } else if c == '4' {
        4
    } else if c == '5' {
        5
    } else if c == '6' {
        6
    } else if c == '7' {
        7
    } else if c == '8' {
        8
    } else if c == '9' {
        9
    } else {
        0
    }
}

/// The digits of a number are decimal digits, at least one, and they write
/// the number.
pub proof fn natural_text_is_digits(n: nat)
    ensures
        natural_text(n).len() >= 1,
        forall|i: int| 0 <= i < natural_text(n).len() ==> is_decimal_digit(natural_text(n)[i]),
        digits_value(natural_text(n)) == n,
    decreases n,
{
    if n < 10 {
        let s = natural_text(n);
        assert(s.drop_last() =~= Seq::<char>::empty());
        assert(digits_value(s.drop_last()) == 0);
    } else {
        natural_text_is_digits(n / 10);
        let s = natural_text(n);
        assert(s.drop_last() =~= natural_text(n / 10));
    }
}

/// The decimal text of an integer has at least one character, and every
/// character after the first is a decimal digit. The first is a minus sign
/// for a negative number and a decimal digit otherwise.
pub proof fn decimal_text_shape(n: int)
    ensures
        decimal_text(n).len() >= 1,
        forall|i: int| 1 <= i < decimal_text(n).len() ==> is_decimal_digit(decimal_text(n)[i]),
        n < 0 ==> decimal_text(n)[0] == '-',
        n >= 0 ==> is_decimal_digit(decimal_text(n)[0]),
{
    if n < 0 {
        natural_text_is_digits((-n) as nat);
    } else {
        natural_text_is_digits(n as nat);
    }
}

/// Two integers with the same decimal text are equal.
pub proof fn decimal_text_is_injective(m: int, n: int)
    requires
        decimal_text(m) == decimal_text(n),
    ensures
        m == n,
{
    decimal_text_shape(m);
    decimal_text_shape(n);
    if m < 0 {
        assert(n < 0);
        natural_text_is_digits((-m) as nat);
        natural_text_is_digits((-n) as nat);
        cancel_prefix(seq!['-'], natural_text((-m) as nat), natural_text((-n) as nat));
    } else {
        assert(n >= 0);
        natural_text_is_digits(m as nat);
        natural_text_is_digits(n as nat);
    }
}

/// A decimal number ends where the first character stands that is no
/// decimal digit: if two texts are equal, each starts with a decimal number,
/// and each goes on with a character that is no digit, then the numbers are
/// equal and so is what follows them.
pub proof fn decimal_token(m: int, x: Seq<char>, n: int, y: Seq<char>)
    requires
        decimal_text(m) + x == decimal_text(n) + y,
        x.len() > 0 && !is_decimal_digit(x[0]),
        y.len() > 0 && !is_decimal_digit(y[0]),
    ensures
        m == n,
        x == y,
{
    let a = decimal_text(m);
    let b = decimal_text(n);
    decimal_text_shape(m);
    decimal_text_shape(n);
    if a.len() < b.len() {
        assert((a + x)[a.len() as int] == x[0]);
        assert((b + y)[a.len() as int] == b[a.len() as int]);
        assert(false);
    }
    if b.len() < a.len() {
        assert((b + y)[b.len() as int] == y[0]);
        assert((a + x)[b.len() as int] == a[b.len() as int]);
        assert(false);
    }
    split_at_same_place(a, x, b, y);
    decimal_text_is_injective(m, n);
}

/// An escaped character never starts with a quote, and has at least one
/// character.
pub proof fn escape_shape(c: char)
    ensures
        json_escape(c).len() >= 1,
        json_escape(c)[0] != '"',
{
}

/// The escapes form a prefix code: if two texts are equal and each starts
/// with an escaped character, the characters are equal and so is what
/// follows them.
pub proof fn escape_token(c: char, x: Seq<char>, d: char, y: Seq<char>)
    requires
        json_escape(c) + x == json_escape(d) + y,
    ensures
        c == d,
        x == y,
{
    let a = json_escape(c);
    let b = json_escape(d);
    let l = a + x;
    let r = b + y;
    assert(l[0] == r[0]);
    assert(a[0] == b[0]);
    if a[0] == '\\' {
        assert(a.len() >= 2 && b.len() >= 2);
        assert(l[1] == r[1]);
        assert(a[1] == b[1]);
        if a[1] == 'u' {
            assert(a.len() == 6 && b.len() == 6);
            assert(l[4] == r[4]);
            assert(l[5] == r[5]);
            assert(a[4] == b[4] && a[5] == b[5]);
            let cv = c as int;
            let dv = d as int;
            assert(digit_char(cv / 16) == digit_char(dv / 16));
            assert(digit_char(cv % 16) == digit_char(dv % 16));
            assert(0 <= cv / 16 < 2 && 0 <= dv / 16 < 2);
            assert(cv / 16 == dv / 16);
            assert(cv % 16 == dv % 16);
            assert(cv == dv);
            assert(c == d);
        } else {
            assert(c == d);
        }
    } else {
        assert(a.len() == 1 && b.len() == 1);
        assert(c == d);
    }
    cancel_prefix(a, x, y);
}

/// Escaped text ends where the first bare quote stands: if two texts are
/// equal, each starts with escaped text, and each goes on with a quote, then
/// the texts that were escaped are equal and so is what follows them.
pub proof fn escaped_token(s: Seq<char>, x: Seq<char>, t: Seq<char>, y: Seq<char>)
    requires
        json_escaped(s) + x == json_escaped(t) + y,
        x.len() > 0 && x[0] == '"',
        y.len() > 0 && y[0] == '"',
    ensures
        s == t,
        x == y,
    decreases s.len(),
{
    if s.len() == 0 {
        if t.len() > 0 {
            escape_shape(t.first());
            assert((json_escaped(t) + y)[0] == json_escape(t.first())[0]);
            assert((json_escaped(s) + x)[0] == x[0]);
            assert(false);
        }
        assert(json_escaped(s) + x =~= x);
        assert(json_escaped(t) + y =~= y);
        assert(s =~= t);
    } else {
        if t.len() == 0 {
            escape_shape(s.first());
            assert((json_escaped(s) + x)[0] == json_escape(s.first())[0]);
            assert((json_escaped(t) + y)[0] == y[0]);
            assert(false);
        }
        let rest_s = json_escaped(s.drop_first()) + x;
        let rest_t = json_escaped(t.drop_first()) + y;
        assert(json_escaped(s) + x =~= json_escape(s.first()) + rest_s);
        assert(json_escaped(t) + y =~= json_escape(t.first()) + rest_t);
        escape_token(s.first(), rest_s, t.first(), rest_t);
        escaped_token(s.drop_first(), x, t.drop_first(), y);
        assert(s =~= seq![s.first()] + s.drop_first());
        assert(t =~= seq![t.first()] + t.drop_first());
    }
}

/// A JSON string literal ends at its closing quote: if two texts are equal
/// and each starts with a string literal, the texts that the literals write
/// are equal and so is what follows them.
pub proof fn json_string_token(s: Seq<char>, x: Seq<char>, t: Seq<char>, y: Seq<char>)
    requires
        json_string_text(s) + x == json_string_text(t) + y,
    ensures
        s == t,
        x == y,
{
    let quote = seq!['"'];
    let tail_s = quote + x;
    let tail_t = quote + y;
    assert(json_string_text(s) + x =~= quote + (json_escaped(s) + tail_s));
    assert(json_string_text(t) + y =~= quote + (json_escaped(t) + tail_t));
    cancel_prefix(quote, json_escaped(s) + tail_s, json_escaped(t) + tail_t);
    escaped_token(s, tail_s, t, tail_t);
    cancel_prefix(quote, x, y);
}

/// A transaction's canonical text ends at its closing brace: if two texts
/// are equal and each starts with the canonical text of a transaction, the
/// transactions are equal and so is what follows them.
pub proof fn transaction_token(a: TransactionView, x: Seq<char>, b: TransactionView, y: Seq<char>)
    requires
        transaction_json(a) + x == transaction_json(b) + y,
    ensures
        a == b,
        x == y,
{
    let t0 = "{\"author\":"@;
    let t1 = ",\"content\":"@;
    let t2 = ",\"timestamp\":"@;
    let t3 = "}"@;
    reveal_strlit("}");
    let a6 = t3 + x;
    let b6 = t3 + y;
    let a5 = decimal_text(a.timestamp) + a6;
    let b5 = decimal_text(b.timestamp) + b6;
    let a4 = t2 + a5;
    let b4 = t2 + b5;
    let a3 = json_string_text(a.content) + a4;
    let b3 = json_string_text(b.content) + b4;
    let a2 = t1 + a3;
    let b2 = t1 + b3;
    let a1 = json_string_text(a.author) + a2;
    let b1 = json_string_text(b.author) + b2;
    assert(transaction_json(a) + x =~= t0 + a1);
    assert(transaction_json(b) + y =~= t0 + b1);
    cancel_prefix(t0, a1, b1);
    json_string_token(a.author, a2, b.author, b2);
    cancel_prefix(t1, a3, b3);
    json_string_token(a.content, a4, b.content, b4);
    cancel_prefix(t2, a5, b5);
    assert(a6[0] == '}' && b6[0] == '}');
    decimal_token(a.timestamp, a6, b.timestamp, b6);
    cancel_prefix(t3, x, y);
}

/// The canonical text of a transaction starts with an opening brace.
pub proof fn transaction_json_starts_with_brace(t: TransactionView)
    ensures
        transaction_json(t).len() > 0,
        transaction_json(t)[0] == '{',
{
    reveal_strlit("{\"author\":");
}

/// The texts of two or more transactions are the text of the first, a
/// comma, and the texts of the others.
pub proof fn transactions_json_from_the_front(ts: Seq<TransactionView>)
    requires
        ts.len() >= 2,
    ensures
        transactions_json(ts) == transaction_json(ts.first()) + ","@ + transactions_json(
            ts.drop_first(),
        ),
    decreases ts.len(),
{
    let comma = ","@;
    if ts.len() == 2 {
        assert(ts.drop_last() =~= seq![ts[0]]);
        assert(ts.drop_first() =~= seq![ts[1]]);
        assert(transactions_json(ts.drop_last()) == transaction_json(ts[0]));
        assert(transactions_json(ts.drop_first()) == transaction_json(ts[1]));
    } else {
        let front = ts.drop_last();
        transactions_json_from_the_front(front);
        assert(front.first() == ts.first());
        assert(front.drop_first() =~= ts.drop_first().drop_last());
        assert(ts.drop_first().last() == ts.last());
        assert(transactions_json(ts.drop_first()) == transactions_json(front.drop_first()) + comma
            + transaction_json(ts.last()));
        assert(transactions_json(ts) =~= transaction_json(ts.first()) + comma + transactions_json(
            ts.drop_first(),
        ));
    }
}

/// What follows the first transaction in the canonical texts of a list that
/// is followed by `x`: `x` itself after a single transaction, and otherwise
/// a comma, the texts of the other transactions, and `x`.
pub open spec fn after_first(ts: Seq<TransactionView>, x: Seq<char>) -> Seq<char> {
    if ts.len() == 1 {
        x
    } else {
        ","@ + (transactions_json(ts.drop_first()) + x)
    }
}

/// The canonical texts of a list of one or more transactions, followed by
/// `x`, are the text of the first transaction and what follows it.
pub proof fn transactions_split_first(ts: Seq<TransactionView>, x: Seq<char>)
    requires
        ts.len() >= 1,
        x.len() > 0,
    ensures
        transactions_json(ts) + x == transaction_json(ts.first()) + after_first(ts, x),
        (transactions_json(ts) + x)[0] == '{',
        after_first(ts, x).len() > 0,
        ts.len() == 1 ==> after_first(ts, x)[0] == x[0],
        ts.len() >= 2 ==> after_first(ts, x)[0] == ',',
{
    reveal_strlit(",");
    transactions_start(ts);
    if ts.len() >= 2 {
        transactions_json_from_the_front(ts);
        assert(transactions_json(ts) + x =~= transaction_json(ts.first()) + after_first(ts, x));
    }
}

/// A list of transactions ends where the closing bracket stands: if two
/// texts are equal, each starts with the canonical texts of a list of
/// transactions, and each goes on with a closing bracket, then the lists are
/// equal and so is what follows them.
pub proof fn transactions_token(
    a: Seq<TransactionView>,
    x: Seq<char>,
    b: Seq<TransactionView>,
    y: Seq<char>,
)
    requires
        transactions_json(a) + x == transactions_json(b) + y,
        x.len() > 0 && x[0] == ']',
        y.len() > 0 && y[0] == ']',
    ensures
        a == b,
        x == y,
    decreases a.len(),
{
    if a.len() == 0 {
        assert(transactions_json(a) + x =~= x);
        if b.len() > 0 {
            transactions_split_first(b, y);
            assert(false);
        }
        assert(transactions_json(b) + y =~= y);
        assert(a =~= b);
    } else if b.len() == 0 {
        assert(transactions_json(b) + y =~= y);
        transactions_split_first(a, x);
        assert(false);
    } else {
        transactions_split_first(a, x);
        transactions_split_first(b, y);
        let rest_a = after_first(a, x);
        let rest_b = after_first(b, y);
        transaction_token(a.first(), rest_a, b.first(), rest_b);
        if a.len() == 1 {
            assert(rest_a[0] == ']');
            assert(b.len() == 1);
            assert(a =~= b);
        } else {
            assert(rest_a[0] == ',');
            assert(b.len() >= 2);
            cancel_prefix(
                ","@,
                transactions_json(a.drop_first()) + x,
                transactions_json(b.drop_first()) + y,
            );
            transactions_token(a.drop_first(), x, b.drop_first(), y);
            assert(a =~= seq![a.first()] + a.drop_first());
            assert(b =~= seq![b.first()] + b.drop_first());
        }
    }
}

/// The canonical texts of a list of one or more transactions start with an
/// opening brace.
proof fn transactions_start(ts: Seq<TransactionView>)
    requires
        ts.len() > 0,
    ensures
        transactions_json(ts).len() > 0,
        transactions_json(ts)[0] == '{',
    decreases ts.len(),
{
    if ts.len() == 1 {
        transaction_json_starts_with_brace(ts[0]);
    } else {
        transactions_start(ts.drop_last());
    }
}

/// The canonical text of a block from its nonce on.
pub open spec fn block_json_from_nonce(b: BlockView) -> Seq<char> {
    decimal_text(b.nonce as int) + (",\"hash\":"@ + (json_string_text(b.hash) + "}"@))
}

/// The canonical text of a block from its timestamp on.
pub open spec fn block_json_from_timestamp(b: BlockView) -> Seq<char> {
    decimal_text(b.timestamp) + (",\"previous_hash\":"@ + (json_string_text(b.previous_hash) + (
        ",\"nonce\":"@ + block_json_from_nonce(b))))
}

/// The canonical text of a block from its index on.
pub open spec fn block_json_from_index(b: BlockView) -> Seq<char> {
    decimal_text(b.index as int) + (",\"transactions\":["@ + (transactions_json(b.transactions) + (
        "],\"timestamp\":"@ + block_json_from_timestamp(b))))
}

/// The canonical text of a block is its opening and its text from the index
/// on.
pub proof fn block_json_in_parts(b: BlockView)
    ensures
        block_json(b) == "{\"index\":"@ + block_json_from_index(b),
{
    let piece0 = "{\"index\":"@;
    let piece1 = decimal_text(b.index as int);
    let piece2 = ",\"transactions\":["@;
    let piece3 = transactions_json(b.transactions);
    let piece4 = "],\"timestamp\":"@;
    let piece5 = decimal_text(b.timestamp);
    let piece6 = ",\"previous_hash\":"@;
    let piece7 = json_string_text(b.previous_hash);
    let piece8 = ",\"nonce\":"@;
    let piece9 = decimal_text(b.nonce as int);
    let piece10 = ",\"hash\":"@;
    let piece11 = json_string_text(b.hash);
    let piece12 = "}"@;
    let head = piece0 + piece1 + piece2 + piece3 + piece4;
    let middle = head + piece5 + piece6 + piece7 + piece8;
    regroup_four(middle, piece9, piece10, piece11, piece12);
    regroup_five(head, piece5, piece6, piece7, piece8, block_json_from_nonce(b));
    regroup_five(piece0, piece1, piece2, piece3, piece4, block_json_from_timestamp(b));
}

/// Four texts appended one after another are appended as one text.
proof fn regroup_four(x: Seq<char>, a: Seq<char>, b: Seq<char>, c: Seq<char>, d: Seq<char>)
    ensures
        x + a + b + c + d == x + (a + (b + (c + d))),
{
    assert(x + a + b + c + d =~= x + (a + (b + (c + d))));
}

/// Four texts and a tail appended one after another are appended as one
/// text.
proof fn regroup_five(
    x: Seq<char>,
    a: Seq<char>,
    b: Seq<char>,
    c: Seq<char>,
    d: Seq<char>,
    e: Seq<char>,
)
    ensures
        x + a + b + c + d + e == x + (a + (b + (c + (d + e)))),
{
    assert(x + a + b + c + d + e =~= x + (a + (b + (c + (d + e)))));
}

/// Two blocks whose canonical texts agree from the nonce on have the same
/// nonce and the same stored hash.
pub proof fn nonce_and_hash_read_back(a: BlockView, b: BlockView)
    requires
        block_json_from_nonce(a) == block_json_from_nonce(b),
    ensures
        a.nonce == b.nonce,
        a.hash == b.hash,
{
    let l5 = ",\"hash\":"@;
    let l6 = "}"@;
    let a1 = l5 + (json_string_text(a.hash) + l6);
    let b1 = l5 + (json_string_text(b.hash) + l6);
    assert(a1[0] == ',' && b1[0] == ',') by {
        reveal_strlit(",\"hash\":");
    }
    decimal_token(a.nonce as int, a1, b.nonce as int, b1);
    cancel_prefix(l5, json_string_text(a.hash) + l6, json_string_text(b.hash) + l6);
    json_string_token(a.hash, l6, b.hash, l6);
}

/// Two blocks whose canonical texts agree from the timestamp on have the
/// same timestamp and previous hash, and their texts agree from the nonce
/// on.
pub proof fn timestamp_and_previous_hash_read_back(a: BlockView, b: BlockView)
    requires
        block_json_from_timestamp(a) == block_json_from_timestamp(b),
    ensures
        a.timestamp == b.timestamp,
        a.previous_hash == b.previous_hash,
        block_json_from_nonce(a) == block_json_from_nonce(b),
{
    let l3 = ",\"previous_hash\":"@;
    let l4 = ",\"nonce\":"@;
    let a3 = l4 + block_json_from_nonce(a);
    let b3 = l4 + block_json_from_nonce(b);
    let a2 = json_string_text(a.previous_hash) + a3;
    let b2 = json_string_text(b.previous_hash) + b3;
    let a1 = l3 + a2;
    let b1 = l3 + b2;
    assert(a1[0] == ',' && b1[0] == ',') by {
        reveal_strlit(",\"previous_hash\":");
    }
    decimal_token(a.timestamp, a1, b.timestamp, b1);
    cancel_prefix(l3, a2, b2);
    json_string_token(a.previous_hash, a3, b.previous_hash, b3);
    cancel_prefix(l4, block_json_from_nonce(a), block_json_from_nonce(b));
}

/// Two blocks whose canonical texts agree from the index on have the same
/// index and transactions, and their texts agree from the timestamp on.
pub proof fn index_and_transactions_read_back(a: BlockView, b: BlockView)
    requires
        block_json_from_index(a) == block_json_from_index(b),
    ensures
        a.index == b.index,
        a.transactions == b.transactions,
        block_json_from_timestamp(a) == block_json_from_timestamp(b),
{
    let l1 = ",\"transactions\":["@;
    let l2 = "],\"timestamp\":"@;
    let a3 = l2 + block_json_from_timestamp(a);
    let b3 = l2 + block_json_from_timestamp(b);
    let a2 = transactions_json(a.transactions) + a3;
    let b2 = transactions_json(b.transactions) + b3;
    let a1 = l1 + a2;
    let b1 = l1 + b2;
    assert(a1[0] == ',' && b1[0] == ',') by {
        reveal_strlit(",\"transactions\":[");
    }
    decimal_token(a.index as int, a1, b.index as int, b1);
    cancel_prefix(l1, a2, b2);
    assert(a3[0] == ']' && b3[0] == ']') by {
        reveal_strlit("],\"timestamp\":");
    }
    transactions_token(a.transactions, a3, b.transactions, b3);
    cancel_prefix(l2, block_json_from_timestamp(a), block_json_from_timestamp(b));
}

/// Two blocks with the same canonical text are equal: the text holds every
/// field of a block, and each can be read back from it.
pub proof fn block_json_is_injective(a: BlockView, b: BlockView)
    requires
        block_json(a) == block_json(b),
    ensures
        a == b,
{
    block_json_in_parts(a);
    block_json_in_parts(b);
    cancel_prefix("{\"index\":"@, block_json_from_index(a), block_json_from_index(b));
    index_and_transactions_read_back(a, b);
    timestamp_and_previous_hash_read_back(a, b);
    nonce_and_hash_read_back(a, b);
}

/// Two blocks with the same preimage agree on the index, the transactions,
/// the timestamp, the previous hash and the nonce: a change to any of these
/// shows in the text that is hashed.
pub proof fn preimage_is_injective(a: BlockView, b: BlockView)
    requires
        block_preimage(a) == block_preimage(b),
    ensures
        a.index == b.index,
        a.transactions == b.transactions,
        a.timestamp == b.timestamp,
        a.previous_hash == b.previous_hash,
        a.nonce == b.nonce,
{
    block_json_is_injective(a.with_hash(Seq::empty()), b.with_hash(Seq::empty()));
}

} // verus!
