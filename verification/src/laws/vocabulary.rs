//! Plain words for what requests show and tunnels hold, and the laws that tie
//! them to headers, digests, instants and numerals.
use vstd::prelude::*;

use crate::capability;
use crate::header;
use crate::laws::tokens;
use crate::state;
use crate::text;
use crate::time::Timestamp;
use crate::tunnel::TunnelModel;
use crate::TunnelStatus;

verus! {

/// The first instant comes before the second.
pub open spec fn is_before(first: Timestamp, second: Timestamp) -> bool {
    first.seconds < second.seconds || (first.seconds == second.seconds && first.nanos
        < second.nanos)
}

/// The later instant comes exactly `count` seconds after the earlier one.
pub open spec fn is_later_by(later: Timestamp, earlier: Timestamp, count: int) -> bool {
    later.seconds == earlier.seconds + count && later.nanos == earlier.nanos
}

/// The SHA-256 digest of the UTF-8 form of a token.
pub open spec fn digest_of(token: Seq<char>) -> Seq<u8> {
    capability::sha256(vstd::utf8::encode_utf8(token))
}

/// The header presents the token and nothing else.
pub open spec fn carries(authorization: Option<Seq<u8>>, token: Seq<char>) -> bool {
    tokens::is_presentable(token) && authorization == Some(
        vstd::utf8::encode_utf8("Bearer "@ + token),
    )
}

/// The header presents no token.
pub open spec fn is_anonymous(authorization: Option<Seq<u8>>) -> bool {
    forall|token: Seq<char>| !#[trigger] carries(authorization, token)
}

/// The header presents a token with this digest.
pub open spec fn shows(authorization: Option<Seq<u8>>, digest: Seq<u8>) -> bool {
    exists|token: Seq<char>| #[trigger]
        carries(authorization, token) && digest_of(token) == digest
}

/// The header presents the phone's capability.
pub open spec fn shows_phone(authorization: Option<Seq<u8>>, tunnel: TunnelModel) -> bool {
    tunnel.phone is Some && shows(authorization, tunnel.phone->0)
}

/// The lifetime of the tunnel is over.
pub open spec fn is_overdue(tunnel: TunnelModel, now: Timestamp) -> bool {
    !is_before(now, tunnel.expires_at)
}

/// A phone is paired and not every file has been fetched.
pub open spec fn is_busy(tunnel: TunnelModel) -> bool {
    tunnel.status == TunnelStatus::Connected || tunnel.status == TunnelStatus::Transferring
}

/// Nobody has cancelled the tunnel and it is not complete.
pub open spec fn is_unfinished(tunnel: TunnelModel) -> bool {
    tunnel.status == TunnelStatus::Waiting || is_busy(tunnel)
}

/// The number that a text of decimal digits is read as, from left to right.
pub open spec fn reading_of(s: Seq<char>) -> int
    decreases s.len(),
{
    if s.len() == 0 {
        0
    } else {
        reading_of(s.take(s.len() - 1)) * 10 + (s[s.len() - 1] as int - '0' as int)
    }
}

/// The text is the shortest way to write the number in decimal digits.
pub open spec fn writes(s: Seq<char>, n: int) -> bool {
    &&& s.len() >= 1
    &&& forall|i: int| 0 <= i < s.len() ==> '0' <= #[trigger] s[i] <= '9'
    &&& s.len() > 1 ==> s[0] != '0'
    &&& reading_of(s) == n
}

proof fn lemma_reading(s: Seq<char>)
    requires
        forall|i: int| 0 <= i < s.len() ==> text::is_digit(#[trigger] s[i]),
    ensures
        reading_of(s) == text::decimal_value(s),
    decreases s.len(),
{
    if s.len() > 0 {
        let front = s.drop_last();
        assert(s.take(s.len() - 1) =~= front);
        assert forall|i: int| 0 <= i < front.len() implies text::is_digit(#[trigger] front[i]) by {
            assert(front[i] == s[i]);
        }
        lemma_reading(front);
        assert(text::is_digit(s.last()));
    }
}

/// A number is written in decimal digits without padding, and a text is read as
/// a number exactly where it is what that number is written as.
pub proof fn law_numerals(s: Seq<char>, n: u64)
    ensures
        writes(text::decimal(n as nat), n as int),
        text::number(s) == Some(n) <==> writes(s, n as int),
        writes(s, n as int) <==> s == text::decimal(n as nat),
{
    let numeral = text::decimal(n as nat);
    text::lemma_decimal_denotes(n as nat);
    assert forall|i: int| 0 <= i < numeral.len() implies '0' <= #[trigger] numeral[i] <= '9' by {
        assert(text::is_digit(numeral[i]));
    }
    lemma_reading(numeral);
    if text::number(s) is Some {
        assert forall|i: int| 0 <= i < s.len() implies '0' <= #[trigger] s[i] <= '9' by {
            assert(text::is_digit(s[i]));
        }
        lemma_reading(s);
    }
    if writes(s, n as int) {
        assert forall|i: int| 0 <= i < s.len() implies text::is_digit(#[trigger] s[i]) by {}
        lemma_reading(s);
        text::lemma_decimal_of_value(s);
    }
}

/// White space, character by character.
pub open spec fn is_space(c: char) -> bool {
    let code = c as u32;
    ||| code == 9 || code == 10 || code == 11 || code == 12 || code == 13 || code == 32
    ||| code == 133 || code == 160 || code == 5760 || (8192 <= code && code <= 8202)
    ||| code == 8232 || code == 8233 || code == 8239 || code == 8287 || code == 12288
}

/// Every character is white space.
pub open spec fn is_blank(s: Seq<char>) -> bool {
    forall|i: int| 0 <= i < s.len() ==> is_space(#[trigger] s[i])
}

/// The text stands between white space, and neither begins nor ends with any.
pub open spec fn is_core_of(core: Seq<char>, s: Seq<char>, lead: int, tail: int) -> bool {
    &&& 0 <= lead <= lead + core.len() == s.len() - tail <= s.len()
    &&& core == s.subrange(lead, lead + core.len())
    &&& is_blank(s.subrange(0, lead))
    &&& is_blank(s.subrange(lead + core.len(), s.len() as int))
    &&& core.len() > 0 ==> !is_space(core[0]) && !is_space(core[core.len() - 1])
}

proof fn lemma_trim_start(s: Seq<char>) -> (lead: int)
    ensures
        0 <= lead <= s.len(),
        text::trim_start(s) == s.subrange(lead, s.len() as int),
        forall|i: int| 0 <= i < lead ==> is_space(#[trigger] s[i]),
        lead < s.len() ==> !is_space(s[lead]),
    decreases s.len(),
{
    if s.len() > 0 && text::is_whitespace(s[0]) {
        let rest = s.drop_first();
        let lead = lemma_trim_start(rest);
        assert(rest.subrange(lead, rest.len() as int) =~= s.subrange(lead + 1, s.len() as int));
        assert forall|i: int| 0 <= i < lead + 1 implies is_space(#[trigger] s[i]) by {
            if i > 0 {
                assert(rest[i - 1] == s[i]);
            }
        }
        lead + 1
    } else {
        assert(s =~= s.subrange(0, s.len() as int));
        0
    }
}

proof fn lemma_trim_end(s: Seq<char>) -> (kept: int)
    ensures
        0 <= kept <= s.len(),
        text::trim_end(s) == s.subrange(0, kept),
        forall|i: int| kept <= i < s.len() ==> is_space(#[trigger] s[i]),
        kept > 0 ==> !is_space(s[kept - 1]),
    decreases s.len(),
{
    if s.len() > 0 && text::is_whitespace(s.last()) {
        let front = s.drop_last();
        let kept = lemma_trim_end(front);
        assert(front.subrange(0, kept) =~= s.subrange(0, kept));
        assert forall|i: int| kept <= i < s.len() implies is_space(#[trigger] s[i]) by {
            if i < s.len() - 1 {
                assert(front[i] == s[i]);
            }
        }
        kept
    } else {
        assert(s =~= s.subrange(0, s.len() as int));
        s.len() as int
    }
}

/// Trimming takes away the white space on both sides, all of it and nothing
/// else.
pub proof fn law_trim(s: Seq<char>)
    ensures
        exists|lead: int, tail: int| #[trigger] is_core_of(text::trim(s), s, lead, tail),
{
    let lead = lemma_trim_start(s);
    let rest = text::trim_start(s);
    let kept = lemma_trim_end(rest);
    let core = text::trim(s);
    let tail = s.len() - lead - kept;
    assert(core =~= s.subrange(lead, lead + kept));
    assert forall|i: int| lead + kept <= i < s.len() implies is_space(#[trigger] s[i]) by {
        assert(rest[i - lead] == s[i]);
    }
    if kept > 0 {
        assert(core[0] == s[lead]);
        assert(core[kept - 1] == rest[kept - 1]);
    }
    assert(is_core_of(core, s, lead, tail));
}

proof fn lemma_unslashed(s: Seq<char>) -> (kept: int)
    ensures
        0 <= kept <= s.len(),
        text::trim_end_matches(s, '/') == s.subrange(0, kept),
        forall|i: int| kept <= i < s.len() ==> #[trigger] s[i] == '/',
        kept > 0 ==> s[kept - 1] != '/',
    decreases s.len(),
{
    if s.len() > 0 && s.last() == '/' {
        let front = s.drop_last();
        let kept = lemma_unslashed(front);
        assert(front.subrange(0, kept) =~= s.subrange(0, kept));
        assert forall|i: int| kept <= i < s.len() implies #[trigger] s[i] == '/' by {
            if i < s.len() - 1 {
                assert(front[i] == s[i]);
            }
        }
        kept
    } else {
        assert(s =~= s.subrange(0, s.len() as int));
        s.len() as int
    }
}

/// `base` is `origin` up to the slashes at its end.
pub open spec fn is_base_of(base: Seq<char>, origin: Seq<char>) -> bool {
    &&& base.len() <= origin.len()
    &&& base == origin.subrange(0, base.len() as int)
    &&& forall|i: int| base.len() <= i < origin.len() ==> #[trigger] origin[i] == '/'
    &&& base.len() > 0 ==> base[base.len() - 1] != '/'
}

/// A pairing link is the portal without the slashes at its end, the path of the
/// tunnel, and the secret as the fragment.
pub proof fn law_pairing_link(origin: Seq<char>, tunnel_id: u128, secret: Seq<char>)
    ensures
        exists|base: Seq<char>| #[trigger]
            is_base_of(base, origin) && state::pairing_link(origin, tunnel_id, secret) == base
                + "/t/"@ + capability::hyphenated_text(tunnel_id) + "#c="@ + secret,
{
    let kept = lemma_unslashed(origin);
    let base = text::trim_end_matches(origin, '/');
    assert(base =~= origin.subrange(0, base.len() as int));
    assert(is_base_of(base, origin));
}

/// Instants are ordered by seconds, then by nanoseconds, and whole seconds are
/// added to the seconds.
pub proof fn law_instants(first: Timestamp, second: Timestamp, count: int)
    ensures
        first.at_or_before(second) <==> !is_before(second, first),
        i64::MIN <= first.seconds + count <= i64::MAX ==> is_later_by(
            first.plus(count),
            first,
            count,
        ),
{
}

/// What is kept of a token is the SHA-256 digest of all of it.
pub proof fn law_digests(token: Seq<char>)
    ensures
        capability::token_digest(token) == digest_of(token),
{
}

/// A header presents a token exactly where it is the scheme, one space and the
/// token, which is not empty and is made of visible ASCII, spaces and tabs.
pub proof fn law_bearer_header(authorization: Option<Seq<u8>>, token: Seq<char>)
    ensures
        capability::bearer_token(authorization) == Some(token) <==> carries(authorization, token),
{
    reveal_strlit("Bearer ");
    if carries(authorization, token) {
        tokens::law_bearer_token_is_read_back(token);
    }
    if capability::bearer_token(authorization) == Some(token) {
        let raw = authorization->0;
        let value = header::text_of(raw)->0;
        assert(value =~= "Bearer "@ + token);
        assert forall|i: int| 0 <= i < value.len() implies ' ' <= #[trigger] value[i] <= '~'
            || value[i] == '\t' by {
            assert(header::is_text_byte(raw[i]));
            assert(value[i] == raw[i] as char);
        }
        assert forall|i: int| 0 <= i < token.len() implies ' ' <= #[trigger] token[i] <= '~'
            || token[i] == '\t' by {
            assert(value[i + 7] == token[i]);
        }
        assert(vstd::utf8::is_ascii_chars(value));
        vstd::utf8::is_ascii_chars_encode_utf8(value);
        assert(raw =~= vstd::utf8::encode_utf8(value)) by {
            assert forall|i: int| 0 <= i < raw.len() implies #[trigger] raw[i]
                == vstd::utf8::encode_utf8(value)[i] by {
                assert(header::is_text_byte(raw[i]));
                assert(value[i] == raw[i] as char);
                assert(value[i] as u8 == raw[i]);
            }
        }
    }
}

/// Who a header shows is decided by the one token it presents.
pub proof fn law_shown_digests(authorization: Option<Seq<u8>>, digest: Seq<u8>)
    ensures
        is_anonymous(authorization) <==> capability::bearer_token(authorization) is None,
        shows(authorization, digest) <==> !is_anonymous(authorization) && state::bearer_digest(
            authorization,
        ) == digest,
{
    if capability::bearer_token(authorization) is Some {
        law_bearer_header(authorization, capability::bearer_token(authorization)->0);
    } else {
        assert forall|token: Seq<char>| !#[trigger] carries(authorization, token) by {
            law_bearer_header(authorization, token);
        }
    }
    if shows(authorization, digest) {
        let token = choose|token: Seq<char>| #[trigger]
            carries(authorization, token) && digest_of(token) == digest;
        law_bearer_header(authorization, token);
    }
}

} // verus!
