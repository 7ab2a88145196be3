//! The command-envelope codec: the exact wire format of one hub command.
//!
//! A command travels as an outer JSON object with a fixed message-type tag
//! and a `message` field holding the inner message as a JSON string.  The
//! inner message carries the shared token and exactly one command, always
//! under command id 1 — the protocol does not pipeline requests.  Encoding
//! is deterministic; [`parse_envelope`] inverts it, and the lemmas at the
//! end prove the round trip in both directions.

use vstd::prelude::*;

use crate::byteseq::append_bytes;
use crate::byteseq::copy_range;
use crate::byteseq::find_byte_from;
use crate::byteseq::lemma_find_from;
use crate::byteseq::lemma_find_from_hit;
use crate::byteseq::matches_at;
use crate::byteseq::spec_find_from;

verus! {

/// One hub operation: the action's name and its argument payload, which
/// is an id or a list-like literal depending on the action.
pub struct Command {
    pub cmd: Vec<u8>,
    pub id: Vec<u8>,
}

/// A command envelope taken apart again: the token and the one command it
/// carried.
pub struct ParsedCommand {
    pub token: Vec<u8>,
    pub cmd: Vec<u8>,
    pub id: Vec<u8>,
}

/// Everything of the outer envelope before the serialised inner message.
pub open spec fn outer_prefix() -> Seq<u8> {
    seq!['{' as u8, '"' as u8, 'm' as u8, 'e' as u8, 's' as u8, 's' as u8, 'a' as u8, 'g' as u8, 'e' as u8, '_' as u8, 't' as u8, 'y' as u8, 'p' as u8, 'e' as u8, '"' as u8, ':' as u8, '"' as u8, 'h' as u8, 'm' as u8, '_' as u8, 'g' as u8, 'e' as u8, 't' as u8, '_' as u8, 'c' as u8, 'o' as u8, 'm' as u8, 'm' as u8, 'a' as u8, 'n' as u8, 'd' as u8, '_' as u8, 'q' as u8, 'u' as u8, 'e' as u8, 'u' as u8, 'e' as u8, '"' as u8, ',' as u8, '"' as u8, 'm' as u8, 'e' as u8, 's' as u8, 's' as u8, 'a' as u8, 'g' as u8, 'e' as u8, '"' as u8, ':' as u8, '"' as u8]
}

pub fn outer_prefix_bytes() -> (r: Vec<u8>)
    ensures
        r@ == outer_prefix(),
{
    let mut r: Vec<u8> = Vec::new();
    r.push('{' as u8);
    r.push('"' as u8);
    r.push('m' as u8);
    r.push('e' as u8);
    r.push('s' as u8);
    r.push('s' as u8);
    r.push('a' as u8);
    r.push('g' as u8);
    r.push('e' as u8);
    r.push('_' as u8);
    r.push('t' as u8);
    r.push('y' as u8);
    r.push('p' as u8);
    r.push('e' as u8);
    r.push('"' as u8);
    r.push(':' as u8);
    r.push('"' as u8);
    r.push('h' as u8);
    r.push('m' as u8);
    r.push('_' as u8);
    r.push('g' as u8);
    r.push('e' as u8);
    r.push('t' as u8);
    r.push('_' as u8);
    r.push('c' as u8);
    r.push('o' as u8);
    r.push('m' as u8);
    r.push('m' as u8);
    r.push('a' as u8);
    r.push('n' as u8);
    r.push('d' as u8);
    r.push('_' as u8);
    r.push('q' as u8);
    r.push('u' as u8);
    r.push('e' as u8);
    r.push('u' as u8);
    r.push('e' as u8);
    r.push('"' as u8);
    r.push(',' as u8);
    r.push('"' as u8);
    r.push('m' as u8);
    r.push('e' as u8);
    r.push('s' as u8);
    r.push('s' as u8);
    r.push('a' as u8);
    r.push('g' as u8);
    r.push('e' as u8);
    r.push('"' as u8);
    r.push(':' as u8);
    r.push('"' as u8);
    proof { assert(r@ =~= outer_prefix()); }
    r
}

/// Everything of the outer envelope after the serialised inner message.
pub open spec fn outer_suffix() -> Seq<u8> {
    seq!['"' as u8, '}' as u8]
}

pub fn outer_suffix_bytes() -> (r: Vec<u8>)
    ensures
        r@ == outer_suffix(),
{
    let mut r: Vec<u8> = Vec::new();
    r.push('"' as u8);
    r.push('}' as u8);
    proof { assert(r@ =~= outer_suffix()); }
    r
}

/// Everything of the inner message before the token.
pub open spec fn inner_prefix() -> Seq<u8> {
    seq!['{' as u8, '"' as u8, 't' as u8, 'o' as u8, 'k' as u8, 'e' as u8, 'n' as u8, '"' as u8, ':' as u8, '"' as u8]
}

pub fn inner_prefix_bytes() -> (r: Vec<u8>)
    ensures
        r@ == inner_prefix(),
{
    let mut r: Vec<u8> = Vec::new();
    r.push('{' as u8);
    r.push('"' as u8);
    r.push('t' as u8);
    r.push('o' as u8);
    r.push('k' as u8);
    r.push('e' as u8);
    r.push('n' as u8);
    r.push('"' as u8);
    r.push(':' as u8);
    r.push('"' as u8);
    proof { assert(r@ =~= inner_prefix()); }
    r
}

/// Everything of the inner message between the token and the command name.
pub open spec fn inner_mid1() -> Seq<u8> {
    seq!['"' as u8, ',' as u8, '"' as u8, 'C' as u8, 'O' as u8, 'M' as u8, 'M' as u8, 'A' as u8, 'N' as u8, 'D' as u8, 'S' as u8, '"' as u8, ':' as u8, '[' as u8, '{' as u8, '"' as u8, 'C' as u8, 'O' as u8, 'M' as u8, 'M' as u8, 'A' as u8, 'N' as u8, 'D' as u8, '"' as u8, ':' as u8, '"' as u8, '{' as u8, '\'' as u8]
}

pub fn inner_mid1_bytes() -> (r: Vec<u8>)
    ensures
        r@ == inner_mid1(),
{
    let mut r: Vec<u8> = Vec::new();
    r.push('"' as u8);
    r.push(',' as u8);
    r.push('"' as u8);
    r.push('C' as u8);
    r.push('O' as u8);
    r.push('M' as u8);
    r.push('M' as u8);
    r.push('A' as u8);
    r.push('N' as u8);
    r.push('D' as u8);
    r.push('S' as u8);
    r.push('"' as u8);
    r.push(':' as u8);
    r.push('[' as u8);
    r.push('{' as u8);
    r.push('"' as u8);
    r.push('C' as u8);
    r.push('O' as u8);
    r.push('M' as u8);
    r.push('M' as u8);
    r.push('A' as u8);
    r.push('N' as u8);
    r.push('D' as u8);
    r.push('"' as u8);
    r.push(':' as u8);
    r.push('"' as u8);
    r.push('{' as u8);
    r.push('\'' as u8);
    proof { assert(r@ =~= inner_mid1()); }
    r
}

/// Everything of the inner message between the command name and its argument.
pub open spec fn inner_mid2() -> Seq<u8> {
    seq!['\'' as u8, ':' as u8]
}

pub fn inner_mid2_bytes() -> (r: Vec<u8>)
    ensures
        r@ == inner_mid2(),
{
    let mut r: Vec<u8> = Vec::new();
    r.push('\'' as u8);
    r.push(':' as u8);
    proof { assert(r@ =~= inner_mid2()); }
    r
}

/// Everything of the inner message after the command argument.
pub open spec fn inner_suffix() -> Seq<u8> {
    seq!['}' as u8, '"' as u8, ',' as u8, '"' as u8, 'C' as u8, 'O' as u8, 'M' as u8, 'M' as u8, 'A' as u8, 'N' as u8, 'D' as u8, 'I' as u8, 'D' as u8, '"' as u8, ':' as u8, '1' as u8, '}' as u8, ']' as u8, '}' as u8]
}

pub fn inner_suffix_bytes() -> (r: Vec<u8>)
    ensures
        r@ == inner_suffix(),
{
    let mut r: Vec<u8> = Vec::new();
    r.push('}' as u8);
    r.push('"' as u8);
    r.push(',' as u8);
    r.push('"' as u8);
    r.push('C' as u8);
    r.push('O' as u8);
    r.push('M' as u8);
    r.push('M' as u8);
    r.push('A' as u8);
    r.push('N' as u8);
    r.push('D' as u8);
    r.push('I' as u8);
    r.push('D' as u8);
    r.push('"' as u8);
    r.push(':' as u8);
    r.push('1' as u8);
    r.push('}' as u8);
    r.push(']' as u8);
    r.push('}' as u8);
    proof { assert(r@ =~= inner_suffix()); }
    r
}

/// The inner message: token and single command framed by the fixed
/// pieces, the command id always 1.
pub open spec fn spec_inner_message(token: Seq<u8>, cmd: Seq<u8>, id: Seq<u8>) -> Seq<u8> {
    inner_prefix() + token + inner_mid1() + cmd + inner_mid2() + id + inner_suffix()
}

/// The bytes an envelope carries for the given parts: the inner message,
/// escaped as a JSON string, between the fixed outer pieces.
pub open spec fn spec_envelope(token: Seq<u8>, cmd: Seq<u8>, id: Seq<u8>) -> Seq<u8> {
    outer_prefix() + spec_escape(spec_inner_message(token, cmd, id)) + outer_suffix()
}

/// The parts an envelope can faithfully carry: a non-empty token with no
/// quote in it, and a command name with no apostrophe — the two bytes the
/// inner framing is delimited by.
pub open spec fn valid_envelope_parts(token: Seq<u8>, cmd: Seq<u8>, id: Seq<u8>) -> bool {
    &&& token.len() > 0
    &&& !token.contains('"' as u8)
    &&& !cmd.contains('\'' as u8)
}

/// How one byte of the inner message is written inside a JSON string:
/// quote and backslash get a backslash before them, all else passes
/// through.
pub open spec fn escape_byte(b: u8) -> Seq<u8> {
    if b == '"' as u8 {
        seq!['\\' as u8, '"' as u8]
    } else if b == '\\' as u8 {
        seq!['\\' as u8, '\\' as u8]
    } else {
        seq![b]
    }
}

/// The inner message written as the body of a JSON string.
pub open spec fn spec_escape(s: Seq<u8>) -> Seq<u8>
    decreases s.len(),
{
    if s.len() == 0 {
        Seq::empty()
    } else {
        escape_byte(s[0]) + spec_escape(s.drop_first())
    }
}

/// Escaping distributes over appending one byte.
proof fn lemma_escape_snoc(s: Seq<u8>, b: u8)
    ensures
        spec_escape(s.push(b)) == spec_escape(s) + escape_byte(b),
    decreases s.len(),
{
    if s.len() == 0 {
        let sp = s.push(b);
        assert(sp[0] == b);
        assert(spec_escape(sp) == escape_byte(b) + spec_escape(sp.drop_first()));
        assert(sp.drop_first().len() == 0);
        assert(spec_escape(sp.drop_first()) == Seq::<u8>::empty());
        assert(spec_escape(s) == Seq::<u8>::empty());
        assert(spec_escape(sp) =~= spec_escape(s) + escape_byte(b));
    } else {
        let sp = s.push(b);
        assert(sp.len() > 0);
        assert(sp[0] == s[0]);
        assert(sp.drop_first() =~= s.drop_first().push(b));
        lemma_escape_snoc(s.drop_first(), b);
        assert(spec_escape(sp) == escape_byte(sp[0]) + spec_escape(sp.drop_first()));
        assert(spec_escape(s) == escape_byte(s[0]) + spec_escape(s.drop_first()));
        assert(spec_escape(sp) =~= spec_escape(s) + escape_byte(b));
    }
}

/// Writes `s` as the body of a JSON string.
pub fn escape(s: &Vec<u8>) -> (r: Vec<u8>)
    ensures
        r@ == spec_escape(s@),
{
    let mut r: Vec<u8> = Vec::new();
    let n = s.len();
    let mut i: usize = 0;
    proof {
        assert(s@.subrange(0, 0) =~= Seq::<u8>::empty());
    }
    while i < n
        invariant
            n == s@.len(),
            0 <= i <= n,
            r@ == spec_escape(s@.subrange(0, i as int)),
        decreases n - i,
    {
        let ghost pre = s@.subrange(0, i as int);
        let b = s[i];
        if b == '"' as u8 {
            r.push('\\' as u8);
            r.push('"' as u8);
        } else if b == '\\' as u8 {
            r.push('\\' as u8);
            r.push('\\' as u8);
        } else {
            r.push(b);
        }
        proof {
            lemma_escape_snoc(pre, s@[i as int]);
            assert(s@.subrange(0, i + 1) =~= pre.push(s@[i as int]));
            assert(r@ =~= spec_escape(pre) + escape_byte(s@[i as int]));
        }
        i += 1;
    }
    proof {
        assert(s@.subrange(0, n as int) =~= s@);
    }
    r
}

/// Reads back the body of a JSON string written by [`spec_escape`]: a
/// backslash must announce a quote or a backslash, and a bare quote or a
/// dangling backslash can not occur, so exactly the escaped forms are
/// accepted.
pub open spec fn spec_unescape(s: Seq<u8>) -> Option<Seq<u8>>
    decreases s.len(),
{
    if s.len() == 0 {
        Some(Seq::empty())
    } else if s[0] == '\\' as u8 {
        if s.len() >= 2 && (s[1] == '"' as u8 || s[1] == '\\' as u8) {
            match spec_unescape(s.subrange(2, s.len() as int)) {
                Some(r) => Some(seq![s[1]] + r),
                None => None,
            }
        } else {
            None
        }
    } else if s[0] == '"' as u8 {
        None
    } else {
        match spec_unescape(s.subrange(1, s.len() as int)) {
            Some(r) => Some(seq![s[0]] + r),
            None => None,
        }
    }
}

/// Executable form of [`spec_unescape`].
pub fn unescape(s: &Vec<u8>) -> (r: Option<Vec<u8>>)
    ensures
        match r {
            Some(v) => spec_unescape(s@) == Some(v@),
            None => spec_unescape(s@) is None,
        },
{
    let n = s.len();
    let mut out: Vec<u8> = Vec::new();
    let mut i: usize = 0;
    proof {
        assert(s@.subrange(0, n as int) =~= s@);
    }
    while i < n
        invariant
            n == s@.len(),
            0 <= i <= n,
            match spec_unescape(s@.subrange(i as int, n as int)) {
                Some(rest) => spec_unescape(s@) == Some(out@ + rest),
                None => spec_unescape(s@) is None,
            },
        decreases n - i,
    {
        let ghost tail = s@.subrange(i as int, n as int);
        let ghost out0 = out@;
        let b = s[i];
        proof {
            assert(tail[0] == s@[i as int]);
        }
        if b == '\\' as u8 {
            if i + 1 >= n {
                proof {
                    assert(tail.len() == 1);
                    assert(spec_unescape(tail) is None);
                }
                return None;
            }
            let c = s[i + 1];
            proof {
                assert(tail[1] == s@[i + 1]);
            }
            if c == '"' as u8 || c == '\\' as u8 {
                out.push(c);
                proof {
                    assert(tail.subrange(2, tail.len() as int) =~= s@.subrange(i + 2, n as int));
                    if spec_unescape(s@.subrange(i + 2, n as int)) is Some {
                        let rest2 = spec_unescape(s@.subrange(i + 2, n as int))->0;
                        assert(spec_unescape(tail) == Some(seq![tail[1]] + rest2));
                        assert(out0 + (seq![tail[1]] + rest2) =~= out@ + rest2);
                    } else {
                        assert(spec_unescape(tail) is None);
                    }
                }
                i += 2;
            } else {
                proof {
                    assert(spec_unescape(tail) is None);
                }
                return None;
            }
        } else if b == '"' as u8 {
            proof {
                assert(spec_unescape(tail) is None);
            }
            return None;
        } else {
            out.push(b);
            proof {
                assert(tail.subrange(1, tail.len() as int) =~= s@.subrange(i + 1, n as int));
                if spec_unescape(s@.subrange(i + 1, n as int)) is Some {
                    let rest2 = spec_unescape(s@.subrange(i + 1, n as int))->0;
                    assert(spec_unescape(tail) == Some(seq![tail[0]] + rest2));
                    assert(out0 + (seq![tail[0]] + rest2) =~= out@ + rest2);
                } else {
                    assert(spec_unescape(tail) is None);
                }
            }
            i += 1;
        }
    }
    proof {
        assert(s@.subrange(n as int, n as int) =~= Seq::<u8>::empty());
        assert(out@ + Seq::<u8>::empty() =~= out@);
    }
    Some(out)
}

/// Escaping then unescaping gives the message back.
pub proof fn lemma_unescape_escape(s: Seq<u8>)
    ensures
        spec_unescape(spec_escape(s)) == Some(s),
    decreases s.len(),
{
    if s.len() == 0 {
    } else {
        let h = s[0];
        let t = s.drop_first();
        let u = spec_escape(s);
        lemma_unescape_escape(t);
        if h == '"' as u8 || h == '\\' as u8 {
            assert(u.len() >= 2 && u[0] == '\\' as u8 && u[1] == h);
            assert(u.subrange(2, u.len() as int) =~= spec_escape(t));
            assert(seq![h] + t =~= s);
        } else {
            assert(u[0] == h);
            assert(u.subrange(1, u.len() as int) =~= spec_escape(t));
            assert(seq![h] + t =~= s);
        }
    }
}

/// Unescaping then escaping gives the escaped form back: an escaped
/// string determines the message it was written from.
pub proof fn lemma_escape_unescape(s: Seq<u8>, t: Seq<u8>)
    requires
        spec_unescape(s) == Some(t),
    ensures
        spec_escape(t) == s,
    decreases s.len(),
{
    if s.len() == 0 {
        assert(t =~= Seq::<u8>::empty());
    } else if s[0] == '\\' as u8 {
        let rest = s.subrange(2, s.len() as int);
        let t2 = spec_unescape(rest)->0;
        lemma_escape_unescape(rest, t2);
        assert(t == seq![s[1]] + t2);
        assert(t[0] == s[1]);
        assert(t.drop_first() =~= t2);
        assert(escape_byte(t[0]) =~= seq![s[0], s[1]]);
        assert(spec_escape(t) =~= s);
    } else {
        let rest = s.subrange(1, s.len() as int);
        let t2 = spec_unescape(rest)->0;
        lemma_escape_unescape(rest, t2);
        assert(t == seq![s[0]] + t2);
        assert(t[0] == s[0]);
        assert(t.drop_first() =~= t2);
        assert(escape_byte(t[0]) =~= seq![s[0]]);
        assert(spec_escape(t) =~= s);
    }
}

/// The inner message for one command: token, command name and argument in
/// the fixed framing.
pub fn encode_inner(token: &Vec<u8>, cmd: &Vec<u8>, id: &Vec<u8>) -> (r: Vec<u8>)
    ensures
        r@ == spec_inner_message(token@, cmd@, id@),
{
    let mut r = inner_prefix_bytes();
    append_bytes(&mut r, token);
    let mid1 = inner_mid1_bytes();
    append_bytes(&mut r, &mid1);
    append_bytes(&mut r, cmd);
    let mid2 = inner_mid2_bytes();
    append_bytes(&mut r, &mid2);
    append_bytes(&mut r, id);
    let suffix = inner_suffix_bytes();
    append_bytes(&mut r, &suffix);
    proof {
        assert(r@ =~= spec_inner_message(token@, cmd@, id@));
    }
    r
}

/// The full envelope for one command.  The token is the hub credential
/// and may not be empty; exactly one command is carried, under id 1.
pub fn encode_envelope(token: &Vec<u8>, cmd: &Vec<u8>, id: &Vec<u8>) -> (r: Vec<u8>)
    requires
        token@.len() > 0,
    ensures
        r@ == spec_envelope(token@, cmd@, id@),
{
    let inner = encode_inner(token, cmd, id);
    let escaped = escape(&inner);
    let mut r = outer_prefix_bytes();
    append_bytes(&mut r, &escaped);
    let suffix = outer_suffix_bytes();
    append_bytes(&mut r, &suffix);
    proof {
        assert(r@ =~= spec_envelope(token@, cmd@, id@));
    }
    r
}

/// The envelope for one [`Command`].
pub fn command_envelope(token: &Vec<u8>, c: &Command) -> (r: Vec<u8>)
    requires
        token@.len() > 0,
    ensures
        r@ == spec_envelope(token@, c.cmd@, c.id@),
{
    encode_envelope(token, &c.cmd, &c.id)
}

/// What parsing an inner message yields: the token, command name and
/// argument, provided the framing is exactly the one written by
/// [`spec_inner_message`] on valid parts.
pub open spec fn spec_parse_inner(s: Seq<u8>) -> Option<(Seq<u8>, Seq<u8>, Seq<u8>)> {
    let cstart = inner_prefix().len() as int;
    if s.len() < cstart || s.subrange(0, cstart) != inner_prefix() {
        None
    } else {
        let tend = spec_find_from(s, cstart, '"' as u8);
        if tend == s.len() || tend == cstart {
            None
        } else {
            let token = s.subrange(cstart, tend);
            if tend + inner_mid1().len() > s.len() || s.subrange(
                tend,
                tend + inner_mid1().len(),
            ) != inner_mid1() {
                None
            } else {
                let cmdstart = tend + inner_mid1().len();
                let cend = spec_find_from(s, cmdstart, '\'' as u8);
                if cend == s.len() {
                    None
                } else if cend + inner_mid2().len() > s.len() || s.subrange(
                    cend,
                    cend + inner_mid2().len(),
                ) != inner_mid2() {
                    None
                } else {
                    let idstart = cend + inner_mid2().len();
                    let idend = s.len() - inner_suffix().len();
                    if idend < idstart || s.subrange(idend, s.len() as int) != inner_suffix() {
                        None
                    } else {
                        Some((token, s.subrange(cmdstart, cend), s.subrange(idstart, idend)))
                    }
                }
            }
        }
    }
}

/// What parsing an envelope yields: outer framing checked, the message
/// unescaped, and the inner message taken apart.
pub open spec fn spec_parse(s: Seq<u8>) -> Option<(Seq<u8>, Seq<u8>, Seq<u8>)> {
    let a = outer_prefix().len() as int;
    let b = outer_suffix().len() as int;
    if s.len() < a + b || s.subrange(0, a) != outer_prefix() || s.subrange(
        s.len() - b,
        s.len() as int,
    ) != outer_suffix() {
        None
    } else {
        match spec_unescape(s.subrange(a, s.len() - b)) {
            Some(inner) => spec_parse_inner(inner),
            None => None,
        }
    }
}

fn parse_inner(s: &Vec<u8>) -> (r: Option<ParsedCommand>)
    ensures
        match r {
            Some(p) => spec_parse_inner(s@) == Some((p.token@, p.cmd@, p.id@)),
            None => spec_parse_inner(s@) is None,
        },
{
    let n = s.len();
    let prefix = inner_prefix_bytes();
    if !matches_at(s, 0, &prefix) {
        return None;
    }
    let tend = find_byte_from(s, 10, '"' as u8);
    proof {
        lemma_find_from(s@, 10, '"' as u8);
    }
    if tend == n || tend == 10 {
        return None;
    }
    let mid1 = inner_mid1_bytes();
    if !matches_at(s, tend, &mid1) {
        return None;
    }
    let cmdstart = tend + 28;
    let cend = find_byte_from(s, cmdstart, '\'' as u8);
    proof {
        lemma_find_from(s@, cmdstart as int, '\'' as u8);
    }
    if cend == n {
        return None;
    }
    let mid2 = inner_mid2_bytes();
    if !matches_at(s, cend, &mid2) {
        return None;
    }
    let idstart = cend + 2;
    let idend = n - 19;
    if idend < idstart {
        return None;
    }
    let suffix = inner_suffix_bytes();
    if !matches_at(s, idend, &suffix) {
        return None;
    }
    let token = copy_range(s, 10, tend);
    let cmd = copy_range(s, cmdstart, cend);
    let id = copy_range(s, idstart, idend);
    Some(ParsedCommand { token, cmd, id })
}

/// Takes an envelope apart again.  Exactly the byte strings that
/// [`encode_envelope`] produces from valid parts are accepted, and the
/// parts come back unchanged — see the round-trip lemmas below.
pub fn parse_envelope(s: &Vec<u8>) -> (r: Option<ParsedCommand>)
    ensures
        match r {
            Some(p) => spec_parse(s@) == Some((p.token@, p.cmd@, p.id@)),
            None => spec_parse(s@) is None,
        },
{
    let n = s.len();
    if n < 52 {
        return None;
    }
    let prefix = outer_prefix_bytes();
    if !matches_at(s, 0, &prefix) {
        return None;
    }
    let suffix = outer_suffix_bytes();
    if !matches_at(s, n - 2, &suffix) {
        return None;
    }
    proof {
        assert(s@.subrange(n - 2, n as int) == s@.subrange(
            s@.len() - outer_suffix().len(),
            s@.len() as int,
        ));
    }
    let middle = copy_range(s, 50, n - 2);
    let inner = match unescape(&middle) {
        Some(v) => v,
        None => {
            return None;
        },
    };
    parse_inner(&inner)
}

/// Parsing recovers what encoding wrote: for any valid parts, taking the
/// inner message apart yields exactly the token, command and argument it
/// was built from.
pub proof fn lemma_parse_inner_round_trip(token: Seq<u8>, cmd: Seq<u8>, id: Seq<u8>)
    requires
        valid_envelope_parts(token, cmd, id),
    ensures
        spec_parse_inner(spec_inner_message(token, cmd, id)) == Some((token, cmd, id)),
{
    let s = spec_inner_message(token, cmd, id);
    let tend = 10 + token.len() as int;
    let cmdstart = tend + 28;
    let cend = cmdstart + cmd.len() as int;
    let idstart = cend + 2;
    let idend = idstart + id.len() as int;
    assert(inner_prefix().len() == 10);
    assert(inner_mid1().len() == 28);
    assert(inner_mid2().len() == 2);
    assert(inner_suffix().len() == 19);
    assert(s.len() == idend + 19);
    assert(s.subrange(0, 10) =~= inner_prefix());
    assert(s.subrange(10, tend) =~= token);
    assert(s.subrange(tend, cmdstart) =~= inner_mid1());
    assert(s.subrange(cmdstart, cend) =~= cmd);
    assert(s.subrange(cend, idstart) =~= inner_mid2());
    assert(s.subrange(idstart, idend) =~= id);
    assert(s.subrange(idend, s.len() as int) =~= inner_suffix());
    assert(inner_mid1()[0] == '"' as u8);
    assert(s[tend] == '"' as u8);
    assert forall|j: int| 10 <= j < tend implies s[j] != '"' as u8 by {
        assert(s[j] == token[j - 10]);
        if token[j - 10] == '"' as u8 {
            assert(token.contains('"' as u8));
        }
    }
    lemma_find_from_hit(s, 10, tend, '"' as u8);
    assert(inner_mid2()[0] == '\'' as u8);
    assert(s[cend] == '\'' as u8);
    assert forall|j: int| cmdstart <= j < cend implies s[j] != '\'' as u8 by {
        assert(s[j] == cmd[j - cmdstart]);
        if cmd[j - cmdstart] == '\'' as u8 {
            assert(cmd.contains('\'' as u8));
        }
    }
    lemma_find_from_hit(s, cmdstart, cend, '\'' as u8);
    assert(spec_parse_inner(s) == Some((token, cmd, id)));
}

/// The envelope round trip: parsing what [`spec_envelope`] wrote from
/// valid parts recovers exactly those parts.
pub proof fn lemma_parse_round_trip(token: Seq<u8>, cmd: Seq<u8>, id: Seq<u8>)
    requires
        valid_envelope_parts(token, cmd, id),
    ensures
        spec_parse(spec_envelope(token, cmd, id)) == Some((token, cmd, id)),
{
    let inner = spec_inner_message(token, cmd, id);
    let esc = spec_escape(inner);
    let s = spec_envelope(token, cmd, id);
    assert(outer_prefix().len() == 50);
    assert(outer_suffix().len() == 2);
    assert(s.len() == 52 + esc.len());
    assert(s.subrange(0, 50) =~= outer_prefix());
    assert(s.subrange(s.len() - 2, s.len() as int) =~= outer_suffix());
    assert(s.subrange(50, s.len() - 2) =~= esc);
    lemma_unescape_escape(inner);
    lemma_parse_inner_round_trip(token, cmd, id);
    assert(spec_parse(s) == Some((token, cmd, id)));
}

/// Parsing is sound: an inner message it accepts is exactly the one the
/// recovered parts encode to, and those parts are valid.
pub proof fn lemma_parse_inner_sound(s: Seq<u8>, token: Seq<u8>, cmd: Seq<u8>, id: Seq<u8>)
    requires
        spec_parse_inner(s) == Some((token, cmd, id)),
    ensures
        valid_envelope_parts(token, cmd, id),
        s == spec_inner_message(token, cmd, id),
{
    let tend = spec_find_from(s, 10, '"' as u8);
    lemma_find_from(s, 10, '"' as u8);
    let cmdstart = tend + 28;
    let cend = spec_find_from(s, cmdstart, '\'' as u8);
    lemma_find_from(s, cmdstart, '\'' as u8);
    let idstart = cend + 2;
    let idend = s.len() - 19;
    assert(token == s.subrange(10, tend));
    assert(cmd == s.subrange(cmdstart, cend));
    assert(id == s.subrange(idstart, idend));
    assert(token.len() > 0);
    assert(!token.contains('"' as u8)) by {
        if token.contains('"' as u8) {
            let w = choose|i: int| 0 <= i < token.len() && token[i] == '"' as u8;
            assert(s[10 + w] == token[w]);
        }
    }
    assert(!cmd.contains('\'' as u8)) by {
        if cmd.contains('\'' as u8) {
            let w = choose|i: int| 0 <= i < cmd.len() && cmd[i] == '\'' as u8;
            assert(s[cmdstart + w] == cmd[w]);
        }
    }
    assert(s =~= spec_inner_message(token, cmd, id));
}

/// Parsing an envelope is sound: an accepted byte string is exactly the
/// envelope of the recovered parts, and those parts are valid.
pub proof fn lemma_parse_sound(s: Seq<u8>, token: Seq<u8>, cmd: Seq<u8>, id: Seq<u8>)
    requires
        spec_parse(s) == Some((token, cmd, id)),
    ensures
        valid_envelope_parts(token, cmd, id),
        s == spec_envelope(token, cmd, id),
{
    let mid = s.subrange(50, s.len() - 2);
    let inner = spec_unescape(mid)->0;
    lemma_escape_unescape(mid, inner);
    lemma_parse_inner_sound(inner, token, cmd, id);
    assert(s =~= spec_envelope(token, cmd, id));
}

} // verus!
