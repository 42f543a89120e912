//! Laws of tokens and of the links and headers that carry them.
use vstd::prelude::*;

use crate::capability;
use crate::header;
use crate::state;
use crate::text;

verus! {

/// `c` is a lower-case hexadecimal digit.
pub open spec fn is_lower_hex(c: char) -> bool {
    '0' <= c <= '9' || 'a' <= c <= 'f'
}

proof fn lemma_simple_text(id: u128, i: int)
    requires
        0 <= i < 32,
    ensures
        capability::simple_text(id).len() == 32,
        is_lower_hex(capability::simple_text(id)[i]),
{
    assert(0 <= capability::nibble(id, i) < 16);
}

/// A token is 64 lower-case hexadecimal digits.
pub proof fn law_token_shape(token: Seq<char>)
    requires
        capability::is_token(token),
    ensures
        token.len() == 64,
        forall|i: int| 0 <= i < 64 ==> is_lower_hex(#[trigger] token[i]),
{
    let (first, second) = choose|first: u128, second: u128|
        capability::is_random_id(first) && capability::is_random_id(second) && token
            == #[trigger] capability::simple_text(first) + #[trigger] capability::simple_text(
            second,
        );
    lemma_simple_text(first, 0);
    lemma_simple_text(second, 0);
    assert forall|i: int| 0 <= i < 64 implies is_lower_hex(#[trigger] token[i]) by {
        if i < 32 {
            lemma_simple_text(first, i);
        } else {
            lemma_simple_text(second, i - 32);
        }
    }
}

/// `token` is made of visible ASCII, spaces and tabs: it may follow the scheme in
/// a header.
pub open spec fn is_presentable(token: Seq<char>) -> bool {
    &&& token.len() > 0
    &&& forall|i: int| 0 <= i < token.len() ==> ' ' <= #[trigger] token[i] <= '~' || token[i] == '\t'
}

/// The header that presents a token.
pub open spec fn bearer_header(token: Seq<char>) -> Seq<u8> {
    vstd::utf8::encode_utf8("Bearer "@ + token)
}

/// A token that is presented as a bearer token is the token that is read.
pub proof fn law_bearer_token_is_read_back(token: Seq<char>)
    requires
        is_presentable(token),
    ensures
        capability::bearer_token(Some(bearer_header(token))) == Some(token),
{
    reveal_strlit("Bearer ");
    let value = "Bearer "@ + token;
    let raw = bearer_header(token);
    assert forall|i: int| 0 <= i < value.len() implies ' ' <= #[trigger] value[i] <= '~' || value[i]
        == '\t' by {
        if i >= 7 {
            assert(value[i] == token[i - 7]);
        }
    }
    assert(vstd::utf8::is_ascii_chars(value));
    vstd::utf8::is_ascii_chars_encode_utf8(value);
    assert forall|i: int| 0 <= i < raw.len() implies header::is_text_byte(#[trigger] raw[i]) by {
        assert(value[i] as u8 == raw[i]);
    }
    assert(header::text_of(raw)->0 =~= value) by {
        assert forall|i: int| 0 <= i < raw.len() implies raw[i] as char == #[trigger] value[i] by {
            assert(value[i] as u8 == raw[i]);
        }
    }
    assert("Bearer "@ =~= value.subrange(0, 7));
    assert(value.skip(7) =~= token);
}

/// Every token can be presented in a header.
pub proof fn law_tokens_are_presentable(token: Seq<char>)
    requires
        capability::is_token(token),
    ensures
        is_presentable(token),
{
    law_token_shape(token);
    assert forall|i: int| 0 <= i < token.len() implies ' ' <= #[trigger] token[i] <= '~' by {
        assert(is_lower_hex(token[i]));
    }
}

proof fn lemma_trimmed(s: Seq<char>, mark: char)
    ensures
        text::trim_end_matches(s, mark).is_prefix_of(s),
    decreases s.len(),
{
    if s.len() > 0 && s.last() == mark {
        lemma_trimmed(s.drop_last(), mark);
        let kept = text::trim_end_matches(s.drop_last(), mark);
        assert(kept =~= s.subrange(0, kept.len() as int));
    } else {
        assert(s =~= s.subrange(0, s.len() as int));
    }
}

/// What a client sends of a pairing link ends before the fragment, and says
/// nothing of the secret: the secret stands in the fragment alone.
pub proof fn law_secret_stays_in_the_fragment(
    portal_origin: Seq<char>,
    tunnel_id: u128,
    pairing_secret: Seq<char>,
)
    requires
        !portal_origin.contains('#'),
    ensures
        text::split_once(
            state::pairing_link(portal_origin, tunnel_id, pairing_secret),
            '#',
        ) == Some(
            (
                text::trim_end_matches(portal_origin, '/') + "/t/"@ + capability::hyphenated_text(
                    tunnel_id,
                ),
                "c="@ + pairing_secret,
            ),
        ),
{
    reveal_strlit("/t/");
    reveal_strlit("#c=");
    reveal_strlit("c=");
    let origin = text::trim_end_matches(portal_origin, '/');
    let name = capability::hyphenated_text(tunnel_id);
    let sent = origin + "/t/"@ + name;
    let link = state::pairing_link(portal_origin, tunnel_id, pairing_secret);
    lemma_trimmed(portal_origin, '/');
    let digits = capability::simple_text(tunnel_id);
    assert forall|i: int| 0 <= i < name.len() implies #[trigger] name[i] != '#' by {
        lemma_simple_text(tunnel_id, 0);
        assert forall|k: int| 0 <= k < 32 implies #[trigger] digits[k] != '#' by {
            lemma_simple_text(tunnel_id, k);
        }
    }
    assert forall|i: int| 0 <= i < sent.len() implies sent[i] != '#' by {
        if i < origin.len() {
            assert(origin[i] == portal_origin[i]);
        } else if i >= origin.len() + 3 {
            assert(sent[i] == name[i - origin.len() - 3]);
        }
    }
    assert(link[sent.len() as int] == '#');
    text::lemma_split_once_at(link, '#', sent.len() as int);
    assert(link.take(sent.len() as int) =~= sent);
    assert(link.skip(sent.len() as int + 1) =~= "c="@ + pairing_secret);
}

} // verus!
