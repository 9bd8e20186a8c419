//! JSON text.

use vstd::prelude::*;

use crate::number::hex_char;

verus! {

/// What stands for a character in the JSON text of a string.
pub open spec fn escaped(c: char) -> Seq<char> {
    let n = c as int;
    if c == '"' || c == '\\' {
        seq!['\\', c]
    } else if n == 0x08 {
        seq!['\\', 'b']
    } else if n == 0x09 {
        seq!['\\', 't']
    } else if n == 0x0a {
        seq!['\\', 'n']
    } else if n == 0x0c {
        seq!['\\', 'f']
    } else if n == 0x0d {
        seq!['\\', 'r']
    } else if n < 0x20 {
        seq!['\\', 'u', '0', '0', hex_char(n / 16), hex_char(n % 16)]
    } else {
        seq![c]
    }
}

/// What stands for the characters of a string in its JSON text.
pub open spec fn all_escaped(s: Seq<char>) -> Seq<char>
    decreases s.len(),
{
    if s.len() == 0 {
        Seq::empty()
    } else {
        all_escaped(s.drop_last()) + escaped(s.last())
    }
}

/// The JSON text of a string.
pub open spec fn json_string(s: Seq<char>) -> Seq<char> {
    seq!['"'] + all_escaped(s) + seq!['"']
}

/// The string that a JSON text has under a key at its top, as `serde_json` reads it.
pub uninterp spec fn json_member(text: Seq<char>, key: Seq<char>) -> Option<Seq<char>>;

/// `serde_json::Value::to_string` on a string value: its JSON text, in quotes. Quotes,
/// backslashes and control characters are escaped, and nothing else is.
#[verifier::external_body]
pub(crate) fn quote(s: &str) -> (r: String)
    ensures
        r@ == json_string(s@),
{
    serde_json::Value::from(s).to_string()
}

/// `serde_json::from_str` into a `Value`, indexed by the key: the string that the text, read
/// as a JSON object, has under the key. None where the text is not JSON, is no object, has no
/// such key, or has something else than a string there. What texts are JSON is not stated
/// beyond the name.
#[verifier::external_body]
pub(crate) fn string_member(text: &str, key: &str) -> (r: Option<String>)
    ensures
        match r {
            Some(s) => json_member(text@, key@) == Some(s@),
            None => json_member(text@, key@) is None,
        },
{
    match serde_json::from_str::<serde_json::Value>(text) {
        Ok(v) => v[key].as_str().map(str::to_owned),
        Err(_) => None,
    }
}

/// A text without quotes, backslashes and control characters stands in quotes as it is; the text
/// of two joined strings is that of both.
pub proof fn law_plain_text_is_quoted(s: Seq<char>, t: Seq<char>)
    ensures
        (forall|i: int|
            0 <= i < s.len() ==> #[trigger] s[i] != '"' && s[i] != '\\' && s[i] as int >= 0x20)
            ==> json_string(s) == seq!['"'] + s + seq!['"'],
        all_escaped(s + t) == all_escaped(s) + all_escaped(t),
    decreases s.len() + t.len(),
{
    if t.len() > 0 {
        law_plain_text_is_quoted(s, t.drop_last());
        assert((s + t).drop_last() =~= s + t.drop_last());
        assert((s + t).last() == t.last());
        assert(all_escaped(s + t) =~= all_escaped(s) + all_escaped(t));
    } else {
        assert(s + t =~= s);
        assert(all_escaped(s) + all_escaped(t) =~= all_escaped(s));
    }
    if forall|i: int|
        0 <= i < s.len() ==> #[trigger] s[i] != '"' && s[i] != '\\' && s[i] as int >= 0x20 {
        lemma_plain(s);
    }
}

proof fn lemma_plain(s: Seq<char>)
    requires
        forall|i: int|
            0 <= i < s.len() ==> #[trigger] s[i] != '"' && s[i] != '\\' && s[i] as int >= 0x20,
    ensures
        all_escaped(s) == s,
    decreases s.len(),
{
    if s.len() > 0 {
        let front = s.drop_last();
        assert forall|i: int| 0 <= i < front.len() implies #[trigger] front[i] != '"' && front[i]
            != '\\' && front[i] as int >= 0x20 by {
            assert(front[i] == s[i]);
        }
        lemma_plain(front);
        assert(s[s.len() - 1] == s.last());
        assert(front + seq![s.last()] =~= s);
    } else {
        assert(s =~= Seq::<char>::empty());
    }
}

} // verus!
