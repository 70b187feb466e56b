//! Wire codec for one message frame.
//!
//! A frame is one line of UTF-8 text holding a JSON object with exactly the
//! two string fields `author` and `text`, in that order and with no spacing
//! between the tokens, e.g. `{"author":"a","text":"hi"}`. Inside a string,
//! the characters `"` and `\` and the controls newline, tab and carriage
//! return are written with a backslash escape; every other character stands
//! for itself. Decoding also accepts `\/` and ignores trailing whitespace
//! (so the newline that delimits the frame may still be attached).
//!
//! [`parse_line`] is the definition of the format: a sequence of characters
//! is a well-formed frame exactly when `parse_line` accepts it. [`encode`]
//! produces such a frame, [`decode`] accepts exactly those frames, and
//! [`lemma_round_trip`] proves that decoding an encoded message gives the
//! message back.

use vstd::prelude::*;
use crate::message::{Message, MessageView};

verus! {

/// Decoding failed: the line is not a well-formed frame.
#[derive(Clone, Copy, Debug, PartialEq, Eq, Structural)]
pub enum DecodeError {
    MalformedMessage,
}

/// How one character of a field is written on the wire.
pub open spec fn escape_char(c: char) -> Seq<char> {
    if c == '"' {
        seq!['\\', '"']
    } else if c == '\\' {
        seq!['\\', '\\']
    } else if c == '\n' {
        seq!['\\', 'n']
    } else if c == '\t' {
        seq!['\\', 't']
    } else if c == '\r' {
        seq!['\\', 'r']
    } else {
        seq![c]
    }
}

/// How a whole field is written on the wire.
pub open spec fn escape_seq(s: Seq<char>) -> Seq<char>
    decreases s.len(),
{
    if s.len() == 0 {
        Seq::<char>::empty()
    } else {
        escape_char(s[0]) + escape_seq(s.skip(1))
    }
}

/// The character a backslash escape stands for, if the escape is accepted.
pub open spec fn unescape_char(c: char) -> Option<char> {
    if c == '"' {
        Some('"')
    } else if c == '\\' {
        Some('\\')
    } else if c == 'n' {
        Some('\n')
    } else if c == 't' {
        Some('\t')
    } else if c == 'r' {
        Some('\r')
    } else if c == '/' {
        Some('/')
    } else {
        None
    }
}

/// Reads a string body up to and including its closing quote. Returns the
/// decoded body and what follows the closing quote, or `None` if the input
/// ends before a closing quote or holds an unaccepted escape.
pub open spec fn unesc(s: Seq<char>) -> Option<(Seq<char>, Seq<char>)>
    decreases s.len(),
{
    if s.len() == 0 {
        None
    } else if s[0] == '"' {
        Some((Seq::<char>::empty(), s.skip(1)))
    } else if s[0] == '\\' {
        if s.len() < 2 {
            None
        } else {
            match unescape_char(s[1]) {
                Some(c) => match unesc(s.skip(2)) {
                    Some(p) => Some((seq![c] + p.0, p.1)),
                    None => None,
                },
                None => None,
            }
        }
    } else {
        match unesc(s.skip(1)) {
            Some(p) => Some((seq![s[0]] + p.0, p.1)),
            None => None,
        }
    }
}

/// The opening of a frame, through the quote that starts the author field.
pub open spec fn author_prefix() -> Seq<char> {
    seq!['{', '"', 'a', 'u', 't', 'h', 'o', 'r', '"', ':', '"']
}

/// What stands between the author field's closing quote and the first
/// character of the text field.
pub open spec fn text_infix() -> Seq<char> {
    seq![',', '"', 't', 'e', 'x', 't', '"', ':', '"']
}

/// Whitespace that may trail the closing brace.
pub open spec fn is_ws(c: char) -> bool {
    c == ' ' || c == '\t' || c == '\r' || c == '\n'
}

/// Every character of `s` is trailing whitespace.
pub open spec fn all_ws(s: Seq<char>) -> bool {
    forall|i: int| 0 <= i < s.len() ==> is_ws(#[trigger] s[i])
}

/// `s` begins with `p`.
pub open spec fn starts_with(s: Seq<char>, p: Seq<char>) -> bool {
    p.len() <= s.len() && s.take(p.len() as int) == p
}

/// The definition of the wire format: the message a line holds, if the line
/// is a well-formed frame.
pub open spec fn parse_line(s: Seq<char>) -> Option<MessageView> {
    if !starts_with(s, author_prefix()) {
        None
    } else {
        match unesc(s.skip(author_prefix().len() as int)) {
            Some(a) => {
                if !starts_with(a.1, text_infix()) {
                    None
                } else {
                    match unesc(a.1.skip(text_infix().len() as int)) {
                        Some(t) => {
                            if t.1.len() >= 1 && t.1[0] == '}' && all_ws(t.1.skip(1)) {
                                Some(MessageView { author: a.0, text: t.0 })
                            } else {
                                None
                            }
                        },
                        None => None,
                    }
                }
            },
            None => None,
        }
    }
}

/// The frame [`encode`] produces for a message.
pub open spec fn encode_spec(m: MessageView) -> Seq<char> {
    author_prefix() + escape_seq(m.author) + seq!['"'] + text_infix() + escape_seq(m.text)
        + seq!['"', '}', '\n']
}

/// Escaping distributes over concatenation.
pub proof fn lemma_escape_concat(a: Seq<char>, b: Seq<char>)
    ensures
        escape_seq(a + b) == escape_seq(a) + escape_seq(b),
    decreases a.len(),
{
    if a.len() == 0 {
        assert(a + b =~= b);
        assert(escape_seq(a) + escape_seq(b) =~= escape_seq(b));
    } else {
        assert((a + b).len() > 0);
        assert((a + b)[0] == a[0]);
        assert((a + b).skip(1) =~= a.skip(1) + b);
        lemma_escape_concat(a.skip(1), b);
        assert(escape_char(a[0]) + (escape_seq(a.skip(1)) + escape_seq(b)) =~= (escape_char(a[0])
            + escape_seq(a.skip(1))) + escape_seq(b));
    }
}

/// Escaping one character alone gives that character's escape.
pub proof fn lemma_escape_single(c: char)
    ensures
        escape_seq(seq![c]) == escape_char(c),
{
    assert(seq![c].skip(1) =~= Seq::<char>::empty());
    assert(escape_seq(seq![c].skip(1)) == Seq::<char>::empty());
    assert(escape_char(c) + Seq::<char>::empty() =~= escape_char(c));
}

/// Reading a string body back out of its escaped form, with a closing quote
/// and anything after it attached, recovers the body and the attachment.
pub proof fn lemma_unesc_escape(a: Seq<char>, rest: Seq<char>)
    ensures
        unesc(escape_seq(a) + seq!['"'] + rest) == Some((a, rest)),
    decreases a.len(),
{
    let s = escape_seq(a) + seq!['"'] + rest;
    if a.len() == 0 {
        assert(s =~= seq!['"'] + rest);
        assert(s[0] == '"');
        assert(s.skip(1) =~= rest);
        assert(a =~= Seq::<char>::empty());
    } else {
        let e = escape_char(a[0]);
        assert(escape_seq(a) == e + escape_seq(a.skip(1)));
        assert(escape_seq(a)[0] == e[0]);
        assert(s[0] == escape_seq(a)[0]);
        lemma_unesc_escape(a.skip(1), rest);
        if a[0] == '"' || a[0] == '\\' || a[0] == '\n' || a[0] == '\t' || a[0] == '\r' {
            assert(e.len() == 2);
            assert(s[0] == '\\');
            assert(s[1] == escape_seq(a)[1]);
            assert(s[1] == e[1]);
            assert(unescape_char(e[1]) == Some(a[0]));
            assert(s.skip(2) =~= escape_seq(a.skip(1)) + seq!['"'] + rest);
            assert(seq![a[0]] + a.skip(1) =~= a);
        } else {
            assert(e =~= seq![a[0]]);
            assert(s[0] == a[0]);
            assert(s.skip(1) =~= escape_seq(a.skip(1)) + seq!['"'] + rest);
            assert(seq![a[0]] + a.skip(1) =~= a);
        }
    }
}

/// Law: the codec round-trips. Every message, encoded as a frame and parsed
/// back, yields exactly the same message.
pub proof fn lemma_round_trip(m: MessageView)
    ensures
        parse_line(encode_spec(m)) == Some(m),
{
    let s = encode_spec(m);
    let rest1 = text_infix() + escape_seq(m.text) + seq!['"', '}', '\n'];
    let rest2 = seq!['}', '\n'];
    assert(s.take(11) =~= author_prefix());
    assert(starts_with(s, author_prefix()));
    assert(s.skip(11) =~= escape_seq(m.author) + seq!['"'] + rest1);
    lemma_unesc_escape(m.author, rest1);
    assert(unesc(s.skip(author_prefix().len() as int)) == Some((m.author, rest1)));
    assert(rest1.take(9) =~= text_infix());
    assert(starts_with(rest1, text_infix()));
    assert(rest1.skip(9) =~= escape_seq(m.text) + seq!['"'] + rest2);
    lemma_unesc_escape(m.text, rest2);
    assert(unesc(rest1.skip(text_infix().len() as int)) == Some((m.text, rest2)));
    assert(rest2[0] == '}');
    assert(rest2.skip(1) =~= seq!['\n']);
    assert(all_ws(rest2.skip(1)));
    assert(parse_line(s) == Some(MessageView { author: m.author, text: m.text }));
    assert(MessageView { author: m.author, text: m.text } == m);
}

/// Relies on `String::push`: appends exactly the given character.
#[verifier::external_body]
fn push_char(s: &mut String, c: char)
    ensures
        final(s)@ == old(s)@.push(c),
{
    s.push(c)
}

/// Appends the escaped form of `s` to `out`.
fn append_escaped(out: &mut String, s: &str)
    ensures
        final(out)@ == old(out)@ + escape_seq(s@),
{
    let ghost orig: Seq<char> = out@;
    let n: usize = s.unicode_len();
    let mut i: usize = 0;
    while i < n
        invariant
            i <= n,
            n == s@.len(),
            out@ == orig + escape_seq(s@.take(i as int)),
        decreases n - i,
    {
        let c = s.get_char(i);
        proof {
            assert(s@.take(i + 1 as int) =~= s@.take(i as int) + seq![s@[i as int]]);
            lemma_escape_concat(s@.take(i as int), seq![s@[i as int]]);
            lemma_escape_single(s@[i as int]);
        }
        let ghost before: Seq<char> = out@;
        if c == '"' {
            push_char(out, '\\');
            push_char(out, '"');
        } else if c == '\\' {
            push_char(out, '\\');
            push_char(out, '\\');
        } else if c == '\n' {
            push_char(out, '\\');
            push_char(out, 'n');
        } else if c == '\t' {
            push_char(out, '\\');
            push_char(out, 't');
        } else if c == '\r' {
            push_char(out, '\\');
            push_char(out, 'r');
        } else {
            push_char(out, c);
        }
        proof {
            assert(out@ =~= before + escape_char(s@[i as int]));
            assert(out@ =~= orig + escape_seq(s@.take(i + 1 as int)));
        }
        i = i + 1;
    }
    proof {
        assert(s@.take(n as int) =~= s@);
    }
}

/// Appends [`author_prefix`] to `out`.
fn append_author_prefix(out: &mut String)
    ensures
        final(out)@ == old(out)@ + author_prefix(),
{
    let lit = "{\"author\":\"";
    proof {
        reveal_strlit("{\"author\":\"");
        assert(lit@ =~= author_prefix());
    }
    out.append(lit);
}

/// Appends `"` followed by [`text_infix`] to `out`.
fn append_text_infix(out: &mut String)
    ensures
        final(out)@ == old(out)@ + seq!['"'] + text_infix(),
{
    let lit = "\",\"text\":\"";
    proof {
        reveal_strlit("\",\"text\":\"");
        assert(lit@ =~= seq!['"'] + text_infix());
    }
    out.append(lit);
    proof {
        assert(old(out)@ + (seq!['"'] + text_infix()) =~= old(out)@ + seq!['"'] + text_infix());
    }
}

/// Appends the closing `"}` and the frame-delimiting newline to `out`.
fn append_closing(out: &mut String)
    ensures
        final(out)@ == old(out)@ + seq!['"', '}', '\n'],
{
    let lit = "\"}\n";
    proof {
        reveal_strlit("\"}\n");
        assert(lit@ =~= seq!['"', '}', '\n']);
    }
    out.append(lit);
}

/// Writes the message as one newline-terminated frame.
pub fn encode(m: &Message) -> (r: String)
    ensures
        r@ == encode_spec(m@),
{
    let mut out = String::new();
    append_author_prefix(&mut out);
    append_escaped(&mut out, m.author.as_str());
    append_text_infix(&mut out);
    append_escaped(&mut out, m.text.as_str());
    append_closing(&mut out);
    proof {
        assert(out@ =~= encode_spec(m@));
    }
    out
}

/// Prefixing a decoded body, as [`unesc`] does one character at a time.
pub open spec fn glue(prefix: Seq<char>, r: Option<(Seq<char>, Seq<char>)>) -> Option<
    (Seq<char>, Seq<char>),
> {
    match r {
        Some(p) => Some((prefix + p.0, p.1)),
        None => None,
    }
}

/// What a backslash escape stands for; mirrors [`unescape_char`].
fn unescape_char_exec(c: char) -> (r: Option<char>)
    ensures
        r == unescape_char(c),
{
    if c == '"' {
        Some('"')
    } else if c == '\\' {
        Some('\\')
    } else if c == 'n' {
        Some('\n')
    } else if c == 't' {
        Some('\t')
    } else if c == 'r' {
        Some('\r')
    } else if c == '/' {
        Some('/')
    } else {
        None
    }
}

/// Reads the string body that starts at `start`, through its closing quote.
/// On success returns the decoded body and the index just past the quote.
fn parse_string_body(s: &str, start: usize) -> (r: Option<(String, usize)>)
    requires
        start <= s@.len(),
    ensures
        match r {
            Some(p) => unesc(s@.skip(start as int)) == Some((p.0@, s@.skip(p.1 as int)))
                && start < p.1 <= s@.len(),
            None => unesc(s@.skip(start as int)) is None,
        },
{
    let n: usize = s.unicode_len();
    let mut out = String::new();
    let mut i: usize = start;
    loop
        invariant
            start <= i <= n,
            n == s@.len(),
            unesc(s@.skip(start as int)) == glue(out@, unesc(s@.skip(i as int))),
        decreases n - i,
    {
        if i >= n {
            proof {
                assert(s@.skip(i as int).len() == 0);
            }
            return None;
        }
        let c = s.get_char(i);
        proof {
            assert(s@.skip(i as int)[0] == s@[i as int]);
            assert(s@.skip(i as int).len() == n - i);
        }
        if c == '"' {
            proof {
                assert(s@.skip(i as int).skip(1) =~= s@.skip(i + 1 as int));
                assert(out@ + Seq::<char>::empty() =~= out@);
            }
            return Some((out, i + 1));
        }
        if c == '\\' {
            if i + 1 >= n {
                return None;
            }
            let c2 = s.get_char(i + 1);
            proof {
                assert(s@.skip(i as int)[1] == s@[i + 1 as int]);
            }
            match unescape_char_exec(c2) {
                Some(u) => {
                    proof {
                        assert(s@.skip(i as int).skip(2) =~= s@.skip(i + 2 as int));
                        let tail = unesc(s@.skip(i + 2 as int));
                        match tail {
                            Some(p) => {
                                assert(out@ + (seq![u] + p.0) =~= out@.push(u) + p.0);
                            },
                            None => {},
                        }
                    }
                    push_char(&mut out, u);
                    i = i + 2;
                },
                None => {
                    return None;
                },
            }
        } else {
            proof {
                assert(s@.skip(i as int).skip(1) =~= s@.skip(i + 1 as int));
                let tail = unesc(s@.skip(i + 1 as int));
                match tail {
                    Some(p) => {
                        assert(out@ + (seq![s@[i as int]] + p.0) =~= out@.push(s@[i as int]) + p.0);
                    },
                    None => {},
                }
            }
            push_char(&mut out, c);
            i = i + 1;
        }
    }
}

/// Whether `s` begins with [`author_prefix`].
fn matches_author_prefix(s: &str) -> (r: bool)
    ensures
        r == starts_with(s@, author_prefix()),
{
    let n: usize = s.unicode_len();
    if n < 11 {
        return false;
    }
    proof {
        assert(forall|j: int| 0 <= j < 11 ==> #[trigger] s@.take(11)[j] == s@[j]);
    }
    let ok = s.get_char(0) == '{' && s.get_char(1) == '"' && s.get_char(2) == 'a' && s.get_char(3)
        == 'u' && s.get_char(4) == 't' && s.get_char(5) == 'h' && s.get_char(6) == 'o'
        && s.get_char(7) == 'r' && s.get_char(8) == '"' && s.get_char(9) == ':' && s.get_char(10)
        == '"';
    proof {
        if ok {
            assert(s@.take(11) =~= author_prefix());
        }
    }
    ok
}

/// Whether [`text_infix`] stands at position `p` of `s`.
fn matches_text_infix(s: &str, p: usize) -> (r: bool)
    requires
        p <= s@.len(),
    ensures
        r == starts_with(s@.skip(p as int), text_infix()),
{
    let n: usize = s.unicode_len();
    if n - p < 9 {
        proof {
            assert(s@.skip(p as int).len() < 9);
        }
        return false;
    }
    proof {
        assert(forall|j: int| 0 <= j < 9 ==> #[trigger] s@.skip(p as int).take(9)[j] == s@[p + j]);
    }
    let ok = s.get_char(p) == ',' && s.get_char(p + 1) == '"' && s.get_char(p + 2) == 't'
        && s.get_char(p + 3) == 'e' && s.get_char(p + 4) == 'x' && s.get_char(p + 5) == 't'
        && s.get_char(p + 6) == '"' && s.get_char(p + 7) == ':' && s.get_char(p + 8) == '"';
    proof {
        if ok {
            assert(s@.skip(p as int).take(9) =~= text_infix());
        } else {
            assert(s@.skip(p as int).take(9) != text_infix());
        }
    }
    ok
}

/// Whether everything from position `p` on is whitespace.
fn rest_is_ws(s: &str, p: usize) -> (r: bool)
    requires
        p <= s@.len(),
    ensures
        r == all_ws(s@.skip(p as int)),
{
    let n: usize = s.unicode_len();
    let mut i: usize = p;
    while i < n
        invariant
            p <= i <= n,
            n == s@.len(),
            forall|k: int| p <= k < i ==> is_ws(#[trigger] s@[k]),
        decreases n - i,
    {
        let c = s.get_char(i);
        if !(c == ' ' || c == '\t' || c == '\r' || c == '\n') {
            proof {
                assert(s@.skip(p as int)[i - p] == s@[i as int]);
            }
            return false;
        }
        i = i + 1;
    }
    proof {
        assert(forall|k: int|
            0 <= k < s@.skip(p as int).len() ==> #[trigger] s@.skip(p as int)[k] == s@[p + k]);
    }
    true
}

/// Reads one line as a frame. Succeeds, with the message the line holds,
/// exactly when [`parse_line`] accepts the line; otherwise the line is
/// rejected as malformed.
pub fn decode(s: &str) -> (r: Result<Message, DecodeError>)
    ensures
        match r {
            Ok(m) => parse_line(s@) == Some(m@),
            Err(e) => parse_line(s@) is None && e == DecodeError::MalformedMessage,
        },
{
    if !matches_author_prefix(s) {
        return Err(DecodeError::MalformedMessage);
    }
    let first = parse_string_body(s, 11);
    match first {
        None => Err(DecodeError::MalformedMessage),
        Some((author, j)) => {
            if !matches_text_infix(s, j) {
                return Err(DecodeError::MalformedMessage);
            }
            let n0: usize = s.unicode_len();
            proof {
                assert(s@.skip(j as int).len() >= 9);
                assert(j + 9 <= n0);
                assert(s@.skip(j as int).skip(9) =~= s@.skip(j + 9 as int));
            }
            let second = parse_string_body(s, j + 9);
            match second {
                None => Err(DecodeError::MalformedMessage),
                Some((text, k)) => {
                    let n: usize = s.unicode_len();
                    proof {
                        assert(s@.skip(k as int).len() == n - k);
                    }
                    if k >= n {
                        return Err(DecodeError::MalformedMessage);
                    }
                    let cb = s.get_char(k);
                    proof {
                        assert(s@.skip(k as int)[0] == s@[k as int]);
                    }
                    if cb != '}' {
                        return Err(DecodeError::MalformedMessage);
                    }
                    proof {
                        assert(s@.skip(k as int).skip(1) =~= s@.skip(k + 1 as int));
                    }
                    if !rest_is_ws(s, k + 1) {
                        return Err(DecodeError::MalformedMessage);
                    }
                    Ok(Message { author, text })
                },
            }
        },
    }
}

} // verus!
