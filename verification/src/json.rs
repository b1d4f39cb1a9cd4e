//! JSON string literals, as serde_json writes them, and the framing of
//! JSON documents from already-encoded parts.
use vstd::prelude::*;
use crate::text::hex_digit_char;

verus! {

/// The escape sequence that a JSON string literal uses for one character.
/// Quote, backslash and the control characters below U+0020 are escaped;
/// every other character stands for itself.
pub open spec fn json_escape_char(c: char) -> Seq<char> {
    if c == '"' {
        seq!['\\', '"']
    } else if c == '\\' {
        seq!['\\', '\\']
    } else if c == '\x08' {
        seq!['\\', 'b']
    } else if c == '\t' {
        seq!['\\', 't']
    } else if c == '\n' {
        seq!['\\', 'n']
    } else if c == '\x0c' {
        seq!['\\', 'f']
    } else if c == '\r' {
        seq!['\\', 'r']
    } else if (c as u32) < 0x20 {
        seq!['\\', 'u', '0', '0', hex_digit_char((c as u32 / 16) as nat), hex_digit_char((c as u32 % 16) as nat)]
    } else {
        seq![c]
    }
}

/// The escaped body of a JSON string literal.
pub open spec fn json_escape(s: Seq<char>) -> Seq<char>
    decreases s.len(),
{
    if s.len() == 0 {
        Seq::empty()
    } else {
        json_escape(s.drop_last()) + json_escape_char(s.last())
    }
}

/// A JSON string literal: the escaped text between double quotes.
pub open spec fn json_string_literal(s: Seq<char>) -> Seq<char> {
    seq!['"'] + json_escape(s) + seq!['"']
}

/// The escaped body of a non-empty text starts with the escape of its first
/// character.
pub proof fn lemma_json_escape_first(s: Seq<char>)
    requires
        s.len() > 0,
    ensures
        json_escape(s) == json_escape_char(s[0]) + json_escape(s.subrange(1, s.len() as int)),
    decreases s.len(),
{
    let rest = s.subrange(1, s.len() as int);
    if s.len() == 1 {
        assert(s.drop_last() =~= Seq::<char>::empty());
        assert(rest =~= Seq::<char>::empty());
        assert(json_escape(s.drop_last()) =~= Seq::<char>::empty());
        assert(s.last() == s[0]);
        assert(json_escape(s) =~= json_escape_char(s[0]));
    } else {
        let d = s.drop_last();
        lemma_json_escape_first(d);
        assert(d.subrange(1, d.len() as int) =~= rest.drop_last());
        assert(rest.last() == s.last());
        assert(json_escape(s) =~= json_escape_char(s[0]) + json_escape(rest));
    }
}

/// Escapes form a prefix-free code: where two texts start with the escapes of
/// two characters, the characters are equal, and so are the remainders.
pub proof fn lemma_json_escape_char_prefix_free(x: char, y: char, s1: Seq<char>, s2: Seq<char>)
    requires
        json_escape_char(x) + s1 == json_escape_char(y) + s2,
    ensures
        x == y,
        s1 == s2,
{
    let ex = json_escape_char(x);
    let ey = json_escape_char(y);
    let t = ex + s1;
    assert(t == ey + s2);
    assert(t[0] == ex[0] && t[0] == ey[0]);
    if ex.len() > 1 && ey.len() > 1 {
        assert(t[1] == ex[1] && t[1] == ey[1]);
        if ex.len() == 6 && ey.len() == 6 {
            assert(t[4] == ex[4] && t[4] == ey[4]);
            assert(t[5] == ex[5] && t[5] == ey[5]);
            let hx = (x as u32 / 16) as nat;
            let lx = (x as u32 % 16) as nat;
            let hy = (y as u32 / 16) as nat;
            let ly = (y as u32 % 16) as nat;
            assert(hx == hy);
            assert(lx == ly);
            assert(x as u32 == y as u32);
        }
    }
    crate::text::lemma_cancel_prefix(ex, s1, s2);
}

/// A JSON string literal ends at its first unescaped quote: where two texts
/// start with escaped bodies each closed by a double quote, the bodies escape
/// the same text and what follows the closing quotes is equal.
pub proof fn lemma_json_escape_closed_unique(
    a: Seq<char>,
    b: Seq<char>,
    r1: Seq<char>,
    r2: Seq<char>,
)
    requires
        json_escape(a) + (seq!['"'] + r1) == json_escape(b) + (seq!['"'] + r2),
    ensures
        a == b,
        r1 == r2,
    decreases a.len() + b.len(),
{
    let q1 = seq!['"'] + r1;
    let q2 = seq!['"'] + r2;
    if a.len() == 0 && b.len() == 0 {
        assert(json_escape(a) =~= Seq::<char>::empty());
        assert(json_escape(b) =~= Seq::<char>::empty());
        assert(a =~= b);
        crate::text::lemma_cancel_prefix(seq!['"'], r1, r2);
    } else if a.len() == 0 {
        assert(json_escape(a) =~= Seq::<char>::empty());
        lemma_json_escape_first(b);
        let eb = json_escape_char(b[0]);
        let t = json_escape(b) + q2;
        assert(t =~= eb + (json_escape(b.subrange(1, b.len() as int)) + q2));
        assert(t[0] == eb[0]);
        assert(q1[0] == '"');
    } else if b.len() == 0 {
        assert(json_escape(b) =~= Seq::<char>::empty());
        lemma_json_escape_first(a);
        let ea = json_escape_char(a[0]);
        let t = json_escape(a) + q1;
        assert(t =~= ea + (json_escape(a.subrange(1, a.len() as int)) + q1));
        assert(t[0] == ea[0]);
        assert(q2[0] == '"');
    } else {
        let a1 = a.subrange(1, a.len() as int);
        let b1 = b.subrange(1, b.len() as int);
        lemma_json_escape_first(a);
        lemma_json_escape_first(b);
        assert(json_escape(a) + q1 =~= json_escape_char(a[0]) + (json_escape(a1) + q1));
        assert(json_escape(b) + q2 =~= json_escape_char(b[0]) + (json_escape(b1) + q2));
        lemma_json_escape_char_prefix_free(a[0], b[0], json_escape(a1) + q1, json_escape(b1) + q2);
        lemma_json_escape_closed_unique(a1, b1, r1, r2);
        assert(a =~= seq![a[0]] + a1);
        assert(b =~= seq![b[0]] + b1);
    }
}

/// `serde_json::to_string` applied to a string slice: the JSON string literal
/// of the text. serde_json writes into a `Vec<u8>`, which cannot fail, so the
/// call always succeeds; the contract says so. The error, which never comes,
/// would be handed back as `None`.
#[verifier::external_body]
pub fn json_quote(s: &str) -> (r: Option<String>)
    ensures
        r is Some,
        r matches Some(t) ==> t@ == json_string_literal(s@),
{
    serde_json::to_string(s).ok()
}

} // verus!

verus! {

/// Appends the JSON string literal of `t` to `s`.
pub fn push_json_string(s: &mut String, t: &str)
    ensures
        final(s)@ == old(s)@ + json_string_literal(t@),
{
    match json_quote(t) {
        Some(q) => crate::text::push_str(s, q.as_str()),
        None => {},
    }
}

} // verus!

verus! {

/// What serde_json makes of a text parsed as a `serde_json::Value` and
/// written back compactly; `None` where the text is not JSON.
pub uninterp spec fn json_value_text(text: Seq<char>) -> Option<Seq<char>>;

/// `serde_json::from_str::<serde_json::Value>` followed by
/// `serde_json::to_string` of the value: the compact JSON of a text that
/// parses, `None` for one that does not. Writing a `Value` cannot fail.
#[verifier::external_body]
pub fn json_reformat(text: &str) -> (r: Option<String>)
    ensures
        r is Some <==> json_value_text(text@) is Some,
        r matches Some(t) ==> json_value_text(text@) == Some(t@),
{
    match serde_json::from_str::<serde_json::Value>(text) {
        Ok(v) => serde_json::to_string(&v).ok(),
        Err(_) => None,
    }
}

} // verus!

verus! {

/// What serde_json makes of a text parsed as a `serde_json::Value` and
/// written back pretty-printed; `None` where the text is not JSON.
pub uninterp spec fn json_pretty_text(text: Seq<char>) -> Option<Seq<char>>;

/// `serde_json::from_str::<serde_json::Value>` followed by
/// `serde_json::to_string_pretty` of the value: the pretty-printed JSON of a
/// text that parses, `None` for one that does not. Writing a `Value` cannot
/// fail.
#[verifier::external_body]
pub fn json_pretty(text: &str) -> (r: Option<String>)
    ensures
        r is Some <==> json_pretty_text(text@) is Some,
        r matches Some(t) ==> json_pretty_text(text@) == Some(t@),
{
    match serde_json::from_str::<serde_json::Value>(text) {
        Ok(v) => serde_json::to_string_pretty(&v).ok(),
        Err(_) => None,
    }
}

} // verus!
